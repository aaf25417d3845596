//! The dataset: an unordered, deduplicating collection of quads with
//! pattern-match queries and set algebra.
//!
//! A dataset's view (`@`) is the finite set of quad values it holds; every
//! operation is specified against that set. Matching is a logical AND over
//! four independently optional filters; the context filter distinguishes
//! "unconstrained", "default graph only" and "one named graph".

use vstd::prelude::*;
use vstd::seq_lib::*;
use crate::quad::{Quad, QuadV};
use crate::term::{Identifier, IdentifierV, Node, NodeV, IRI};

verus! {

/// The mathematical value of a [`ContextFilter`].
pub enum ContextFilterV {
    Unconstrained,
    DefaultGraphOnly,
    NamedGraph(IdentifierV),
}

/// The three-state filter for the graph-label position: match any context,
/// only the default graph, or only one named graph.
#[derive(Debug)]
pub enum ContextFilter {
    Unconstrained,
    DefaultGraphOnly,
    NamedGraph(Identifier),
}

impl View for ContextFilter {
    type V = ContextFilterV;

    open spec fn view(&self) -> ContextFilterV {
        match self {
            ContextFilter::Unconstrained => ContextFilterV::Unconstrained,
            ContextFilter::DefaultGraphOnly => ContextFilterV::DefaultGraphOnly,
            ContextFilter::NamedGraph(id) => ContextFilterV::NamedGraph(id@),
        }
    }
}

/// View of an optional subject/graph filter argument.
pub open spec fn opt_ref_identifier_view(o: Option<&Identifier>) -> Option<IdentifierV> {
    match o {
        Option::Some(id) => Option::Some(id@),
        Option::None => Option::None,
    }
}

/// View of an optional predicate filter argument.
pub open spec fn opt_ref_iri_view(o: Option<&IRI>) -> Option<Seq<char>> {
    match o {
        Option::Some(iri) => Option::Some(iri@),
        Option::None => Option::None,
    }
}

/// View of an optional object filter argument.
pub open spec fn opt_ref_node_view(o: Option<&Node>) -> Option<NodeV> {
    match o {
        Option::Some(n) => Option::Some(n@),
        Option::None => Option::None,
    }
}

/// Whether a quad's context passes a context filter.
pub open spec fn context_matches(filter: ContextFilterV, context: Option<IdentifierV>) -> bool {
    match filter {
        ContextFilterV::Unconstrained => true,
        ContextFilterV::DefaultGraphOnly => context is None,
        ContextFilterV::NamedGraph(id) => context == Option::Some(id),
    }
}

/// Whether a quad passes all four filters: every provided filter field must
/// equal the quad's corresponding field, and an absent filter matches
/// anything.
pub open spec fn quad_matches(
    q: QuadV,
    subject: Option<IdentifierV>,
    predicate: Option<Seq<char>>,
    object: Option<NodeV>,
    context: ContextFilterV,
) -> bool {
    &&& (match subject {
        Option::Some(s) => q.subject == s,
        Option::None => true,
    })
    &&& (match predicate {
        Option::Some(p) => q.predicate == p,
        Option::None => true,
    })
    &&& (match object {
        Option::Some(o) => q.object == o,
        Option::None => true,
    })
    &&& context_matches(context, q.context)
}

/// The subsequence of `qs` whose elements pass the four filters, in order.
pub open spec fn matched_of(
    qs: Seq<QuadV>,
    subject: Option<IdentifierV>,
    predicate: Option<Seq<char>>,
    object: Option<NodeV>,
    context: ContextFilterV,
) -> Seq<QuadV>
    decreases qs.len(),
{
    if qs.len() == 0 {
        Seq::empty()
    } else {
        let prefix = matched_of(qs.drop_last(), subject, predicate, object, context);
        if quad_matches(qs.last(), subject, predicate, object, context) {
            prefix.push(qs.last())
        } else {
            prefix
        }
    }
}

/// What `matched_of` keeps: exactly the elements that pass the filters, with
/// no duplicates introduced.
pub proof fn lemma_matched_of_properties(
    qs: Seq<QuadV>,
    subject: Option<IdentifierV>,
    predicate: Option<Seq<char>>,
    object: Option<NodeV>,
    context: ContextFilterV,
)
    ensures
        forall|v: QuadV|
            #[trigger] matched_of(qs, subject, predicate, object, context).contains(v) <==> (
            qs.contains(v) && quad_matches(v, subject, predicate, object, context)),
        qs.no_duplicates() ==> matched_of(qs, subject, predicate, object, context).no_duplicates(),
    decreases qs.len(),
{
    let m = matched_of(qs, subject, predicate, object, context);
    if qs.len() == 0 {
        assert(forall|v: QuadV| !qs.contains(v));
        assert(forall|v: QuadV| !m.contains(v));
    } else {
        let init = qs.drop_last();
        let pm = matched_of(init, subject, predicate, object, context);
        lemma_matched_of_properties(init, subject, predicate, object, context);
        assert forall|v: QuadV| #[trigger] qs.contains(v) implies init.contains(v) || v
            == qs.last() by {
            let i = choose|i: int| 0 <= i < qs.len() && qs[i] == v;
            if i < qs.len() - 1 {
                assert(init[i] == v);
            }
        }
        assert(forall|v: QuadV| init.contains(v) ==> qs.contains(v));
        assert(qs.contains(qs.last()));
        if quad_matches(qs.last(), subject, predicate, object, context) {
            assert forall|v: QuadV| #[trigger] m.contains(v) implies (qs.contains(v)
                && quad_matches(v, subject, predicate, object, context)) by {
                lemma_seq_contains_after_push(pm, qs.last(), v);
            }
            assert forall|v: QuadV|
                qs.contains(v) && quad_matches(
                    v,
                    subject,
                    predicate,
                    object,
                    context,
                ) implies #[trigger] m.contains(v) by {
                lemma_seq_contains_after_push(pm, qs.last(), v);
            }
            if qs.no_duplicates() {
                assert(init.no_duplicates());
                assert(!init.contains(qs.last()));
                assert(!pm.contains(qs.last()));
                assert forall|i: int, j: int| 0 <= i < j < m.len() implies m[i] != m[j] by {
                    if j < m.len() - 1 {
                        assert(pm[i] != pm[j]);
                    } else {
                        assert(pm.contains(pm[i]));
                    }
                }
            }
        } else {
            assert(m == pm);
        }
    }
}

/// Sequence of quad views.
pub open spec fn quad_views(qs: Seq<Quad>) -> Seq<QuadV> {
    qs.map_values(|q: Quad| q@)
}

/// Set of quad views.
pub open spec fn quad_view_set(qs: Seq<Quad>) -> Set<QuadV> {
    quad_views(qs).to_set()
}

/// An unordered, deduplicating collection of quads. No two stored quads are
/// structurally equal; everything else about the collection is unordered.
#[derive(Debug)]
pub struct Dataset {
    quads: Vec<Quad>,
}

impl View for Dataset {
    type V = Set<QuadV>;

    closed spec fn view(&self) -> Set<QuadV> {
        self.quad_seq().to_set()
    }
}

impl Dataset {
    /// The stored quads, in internal order.
    pub closed spec fn quad_seq(self) -> Seq<QuadV> {
        quad_views(self.quads@)
    }

    #[verifier::type_invariant]
    spec fn inv(self) -> bool {
        self.quad_seq().no_duplicates()
    }

    /// A dataset's view is always a finite set.
    pub proof fn lemma_finite(&self)
        ensures
            self@.finite(),
    {
        broadcast use vstd::seq_lib::seq_to_set_is_finite;

    }

    /// An empty dataset.
    pub fn new() -> (r: Dataset)
        ensures
            r@ == Set::<QuadV>::empty(),
    {
        let r = Dataset { quads: Vec::new() };
        proof {
            assert(r.quad_seq() =~= Seq::empty());
            assert(r@ =~= Set::<QuadV>::empty());
        }
        r
    }

    /// How many distinct quads are stored.
    pub fn len(&self) -> (r: usize)
        ensures
            r == self@.len(),
    {
        proof {
            use_type_invariant(&*self);
            self.quad_seq().unique_seq_to_set();
        }
        self.quads.len()
    }

    /// Exact structural membership.
    pub fn contains(&self, quad: &Quad) -> (r: bool)
        ensures
            r == self@.contains(quad@),
    {
        let n = self.quads.len();
        for i in 0..n
            invariant
                n == self.quads.len(),
                forall|k: int| 0 <= k < i ==> self.quad_seq()[k] != quad@,
        {
            if *(&self.quads[i]) == *quad {
                assert(self.quad_seq()[i as int] == quad@);
                assert(self.quad_seq().contains(quad@));
                return true;
            }
        }
        proof {
            if self.quad_seq().contains(quad@) {
                let k = choose|k: int|
                    0 <= k < self.quad_seq().len() && self.quad_seq()[k] == quad@;
                assert(false);
            }
        }
        false
    }

    /// Adds one quad; a structural duplicate changes nothing.
    pub fn insert(&mut self, quad: Quad)
        ensures
            final(self)@ == old(self)@.insert(quad@),
    {
        proof {
            use_type_invariant(&*self);
        }
        let ghost old_seq = self.quad_seq();
        if !self.contains(&quad) {
            proof {
                broadcast use vstd::prelude::Seq::lemma_push_to_set_commute;

            }
            let ghost qv = quad@;
            let mut taken: Vec<Quad> = Vec::new();
            core::mem::swap(&mut self.quads, &mut taken);
            taken.push(quad);
            proof {
                let pushed = quad_views(taken@);
                assert(pushed =~= old_seq.push(qv));
                assert(!old_seq.contains(qv));
                assert forall|i: int, j: int| 0 <= i < j < pushed.len() implies pushed[i]
                    != pushed[j] by {
                    if j < pushed.len() - 1 {
                        assert(old_seq[i] != old_seq[j]);
                    } else {
                        assert(old_seq.contains(old_seq[i]));
                    }
                }
            }
            core::mem::swap(&mut self.quads, &mut taken);
            proof {
                assert(self.quad_seq() =~= old_seq.push(qv));
            }
        } else {
            proof {
                assert(old(self)@.insert(quad@) =~= old(self)@);
            }
        }
    }

    /// Bulk insert; equivalent to inserting each element in turn, so
    /// duplicates (within the batch or against the store) are absorbed.
    pub fn extend(&mut self, quads: Vec<Quad>)
        ensures
            final(self)@ == old(self)@ + quad_view_set(quads@),
    {
        let n = quads.len();
        for i in 0..n
            invariant
                n == quads.len(),
                self@ == old(self)@ + quad_views(quads@).subrange(0, i as int).to_set(),
        {
            proof {
                broadcast use vstd::prelude::Seq::lemma_push_to_set_commute;

            }
            let q = (&quads[i]).clone();
            let ghost prefix = quad_views(quads@).subrange(0, i as int);
            self.insert(q);
            proof {
                assert(quad_views(quads@).subrange(0, i + 1) =~= prefix.push(q@));
                assert(old(self)@ + prefix.to_set().insert(q@) =~= (old(self)@
                    + prefix.to_set()).insert(q@));
            }
        }
        proof {
            assert(quad_views(quads@).subrange(0, quads@.len() as int) =~= quad_views(quads@));
        }
    }

    /// The matched quads, as a sequence (internal order).
    pub closed spec fn matched_quads(
        self,
        subject: Option<IdentifierV>,
        predicate: Option<Seq<char>>,
        object: Option<NodeV>,
        context: ContextFilterV,
    ) -> Seq<QuadV> {
        matched_of(self.quad_seq(), subject, predicate, object, context)
    }

    /// All stored quads that pass every provided filter; an all-absent call
    /// yields every quad. A quad value is in the result exactly when it is in
    /// the dataset and matches, and the result holds no duplicates.
    pub fn match_quads(
        &self,
        subject: Option<&Identifier>,
        predicate: Option<&IRI>,
        object: Option<&Node>,
        context: &ContextFilter,
    ) -> (r: Vec<Quad>)
        ensures
            quad_views(r@) == self.matched_quads(
                opt_ref_identifier_view(subject),
                opt_ref_iri_view(predicate),
                opt_ref_node_view(object),
                context@,
            ),
            quad_views(r@).no_duplicates(),
            forall|v: QuadV|
                #[trigger] quad_views(r@).contains(v) <==> (self@.contains(v) && quad_matches(
                    v,
                    opt_ref_identifier_view(subject),
                    opt_ref_iri_view(predicate),
                    opt_ref_node_view(object),
                    context@,
                )),
    {
        let ghost sv = opt_ref_identifier_view(subject);
        let ghost pv = opt_ref_iri_view(predicate);
        let ghost ov = opt_ref_node_view(object);
        let ghost cv = context@;
        proof {
            use_type_invariant(&*self);
        }
        let mut out: Vec<Quad> = Vec::new();
        let n = self.quads.len();
        proof {
            assert(quad_views(out@) =~= matched_of(
                self.quad_seq().subrange(0, 0),
                sv,
                pv,
                ov,
                cv,
            ));
        }
        for i in 0..n
            invariant
                n == self.quads.len(),
                sv == opt_ref_identifier_view(subject),
                pv == opt_ref_iri_view(predicate),
                ov == opt_ref_node_view(object),
                cv == context@,
                quad_views(out@) == matched_of(self.quad_seq().subrange(0, i as int), sv, pv, ov, cv),
        {
            let ghost pre = self.quad_seq().subrange(0, i as int);
            let ghost out0 = out@;
            let q = &self.quads[i];
            let matched = quad_matches_exec(q, subject, predicate, object, context);
            if matched {
                out.push(q.clone());
            }
            proof {
                let qv = self.quad_seq()[i as int];
                let sub = self.quad_seq().subrange(0, i + 1);
                assert(qv == self.quads@[i as int]@);
                assert(sub =~= pre.push(qv));
                assert(sub.len() == i + 1);
                assert(sub.drop_last() =~= pre);
                assert(sub.last() == qv);
                if matched {
                    assert(out@ == out0.push(self.quads@[i as int]));
                    assert(quad_views(out@) =~= quad_views(out0).push(qv));
                    assert(matched_of(sub, sv, pv, ov, cv) == matched_of(pre, sv, pv, ov, cv).push(
                        qv,
                    ));
                } else {
                    assert(out@ == out0);
                    assert(matched_of(sub, sv, pv, ov, cv) == matched_of(pre, sv, pv, ov, cv));
                }
            }
        }
        proof {
            assert(self.quad_seq().subrange(0, self.quad_seq().len() as int) =~= self.quad_seq());
            lemma_matched_of_properties(self.quad_seq(), sv, pv, ov, cv);
            assert(forall|v: QuadV| self@.contains(v) <==> self.quad_seq().contains(v));
        }
        out
    }

    /// Structural set union; pure, neither operand is changed.
    pub fn union(&self, other: &Dataset) -> (r: Dataset)
        ensures
            r@ == self@ + other@,
    {
        let mut out = Dataset::new();
        out.insert_all(self);
        out.insert_all(other);
        proof {
            assert((Set::<QuadV>::empty() + self@) + other@ =~= self@ + other@);
        }
        out
    }

    /// Structural set difference: the quads of `self` not present in `other`;
    /// pure, neither operand is changed.
    pub fn difference(&self, other: &Dataset) -> (r: Dataset)
        ensures
            r@ == self@.difference(other@),
    {
        proof {
            use_type_invariant(&*self);
        }
        let mut out = Dataset::new();
        let n = self.quads.len();
        proof {
            assert(self.quad_seq().subrange(0, 0).to_set().difference(other@) =~= Set::empty());
        }
        for i in 0..n
            invariant
                n == self.quads.len(),
                out@ == self.quad_seq().subrange(0, i as int).to_set().difference(other@),
        {
            proof {
                broadcast use vstd::prelude::Seq::lemma_push_to_set_commute;

            }
            let ghost pre = self.quad_seq().subrange(0, i as int);
            let q = &self.quads[i];
            if !other.contains(q) {
                let copy = q.clone();
                out.insert(copy);
            }
            proof {
                assert(self.quad_seq().subrange(0, i + 1) =~= pre.push(self.quad_seq()[i as int]));
                assert(out@ =~= pre.push(self.quad_seq()[i as int]).to_set().difference(other@));
            }
        }
        proof {
            assert(self.quad_seq().subrange(0, self.quad_seq().len() as int) =~= self.quad_seq());
        }
        out
    }

    /// The subjects of the quads matching the remaining filters, one entry
    /// per matching quad.
    pub fn subjects(
        &self,
        predicate: Option<&IRI>,
        object: Option<&Node>,
        context: &ContextFilter,
    ) -> (r: Vec<Identifier>)
        ensures
            r@.map_values(|x: Identifier| x@) == self.matched_quads(
                Option::None,
                opt_ref_iri_view(predicate),
                opt_ref_node_view(object),
                context@,
            ).map_values(|q: QuadV| q.subject),
    {
        let ms = self.match_quads(Option::None, predicate, object, context);
        let n = ms.len();
        let mut out: Vec<Identifier> = Vec::new();
        for i in 0..n
            invariant
                n == ms.len(),
                out@.len() == i,
                forall|k: int| 0 <= k < i ==> out@[k]@ == ms@[k]@.subject,
        {
            out.push((&ms[i]).subject.clone());
        }
        proof {
            assert(out@.map_values(|x: Identifier| x@) =~= quad_views(ms@).map_values(
                |q: QuadV| q.subject,
            ));
        }
        out
    }

    /// The predicates of the quads matching the remaining filters, one entry
    /// per matching quad.
    pub fn predicates(
        &self,
        subject: Option<&Identifier>,
        object: Option<&Node>,
        context: &ContextFilter,
    ) -> (r: Vec<IRI>)
        ensures
            r@.map_values(|x: IRI| x@) == self.matched_quads(
                opt_ref_identifier_view(subject),
                Option::None,
                opt_ref_node_view(object),
                context@,
            ).map_values(|q: QuadV| q.predicate),
    {
        let ms = self.match_quads(subject, Option::None, object, context);
        let n = ms.len();
        let mut out: Vec<IRI> = Vec::new();
        for i in 0..n
            invariant
                n == ms.len(),
                out@.len() == i,
                forall|k: int| 0 <= k < i ==> out@[k]@ == ms@[k]@.predicate,
        {
            out.push((&ms[i]).predicate.clone());
        }
        proof {
            assert(out@.map_values(|x: IRI| x@) =~= quad_views(ms@).map_values(
                |q: QuadV| q.predicate,
            ));
        }
        out
    }

    /// The objects of the quads matching the remaining filters, one entry
    /// per matching quad.
    pub fn objects(
        &self,
        subject: Option<&Identifier>,
        predicate: Option<&IRI>,
        context: &ContextFilter,
    ) -> (r: Vec<Node>)
        ensures
            r@.map_values(|x: Node| x@) == self.matched_quads(
                opt_ref_identifier_view(subject),
                opt_ref_iri_view(predicate),
                Option::None,
                context@,
            ).map_values(|q: QuadV| q.object),
    {
        let ms = self.match_quads(subject, predicate, Option::None, context);
        let n = ms.len();
        let mut out: Vec<Node> = Vec::new();
        for i in 0..n
            invariant
                n == ms.len(),
                out@.len() == i,
                forall|k: int| 0 <= k < i ==> out@[k]@ == ms@[k]@.object,
        {
            out.push((&ms[i]).object.clone());
        }
        proof {
            assert(out@.map_values(|x: Node| x@) =~= quad_views(ms@).map_values(
                |q: QuadV| q.object,
            ));
        }
        out
    }

    /// The subject–object pairs of the quads matching the remaining filters.
    pub fn subject_objects(&self, predicate: Option<&IRI>, context: &ContextFilter) -> (r: Vec<
        (Identifier, Node),
    >)
        ensures
            r@.map_values(|p: (Identifier, Node)| (p.0@, p.1@)) == self.matched_quads(
                Option::None,
                opt_ref_iri_view(predicate),
                Option::None,
                context@,
            ).map_values(|q: QuadV| (q.subject, q.object)),
    {
        let ms = self.match_quads(Option::None, predicate, Option::None, context);
        let n = ms.len();
        let mut out: Vec<(Identifier, Node)> = Vec::new();
        for i in 0..n
            invariant
                n == ms.len(),
                out@.len() == i,
                forall|k: int|
                    0 <= k < i ==> (#[trigger] out@[k]).0@ == ms@[k]@.subject && out@[k].1@
                        == ms@[k]@.object,
        {
            let q = &ms[i];
            out.push((q.subject.clone(), q.object.clone()));
        }
        proof {
            assert(out@.map_values(|p: (Identifier, Node)| (p.0@, p.1@)) =~= quad_views(
                ms@,
            ).map_values(|q: QuadV| (q.subject, q.object)));
        }
        out
    }

    /// The subject–predicate pairs of the quads matching the remaining
    /// filters.
    pub fn subject_predicates(&self, object: Option<&Node>, context: &ContextFilter) -> (r: Vec<
        (Identifier, IRI),
    >)
        ensures
            r@.map_values(|p: (Identifier, IRI)| (p.0@, p.1@)) == self.matched_quads(
                Option::None,
                Option::None,
                opt_ref_node_view(object),
                context@,
            ).map_values(|q: QuadV| (q.subject, q.predicate)),
    {
        let ms = self.match_quads(Option::None, Option::None, object, context);
        let n = ms.len();
        let mut out: Vec<(Identifier, IRI)> = Vec::new();
        for i in 0..n
            invariant
                n == ms.len(),
                out@.len() == i,
                forall|k: int|
                    0 <= k < i ==> (#[trigger] out@[k]).0@ == ms@[k]@.subject && out@[k].1@
                        == ms@[k]@.predicate,
        {
            let q = &ms[i];
            out.push((q.subject.clone(), q.predicate.clone()));
        }
        proof {
            assert(out@.map_values(|p: (Identifier, IRI)| (p.0@, p.1@)) =~= quad_views(
                ms@,
            ).map_values(|q: QuadV| (q.subject, q.predicate)));
        }
        out
    }

    /// The predicate–object pairs of the quads matching the remaining
    /// filters.
    pub fn predicate_objects(&self, subject: Option<&Identifier>, context: &ContextFilter) -> (r:
        Vec<(IRI, Node)>)
        ensures
            r@.map_values(|p: (IRI, Node)| (p.0@, p.1@)) == self.matched_quads(
                opt_ref_identifier_view(subject),
                Option::None,
                Option::None,
                context@,
            ).map_values(|q: QuadV| (q.predicate, q.object)),
    {
        let ms = self.match_quads(subject, Option::None, Option::None, context);
        let n = ms.len();
        let mut out: Vec<(IRI, Node)> = Vec::new();
        for i in 0..n
            invariant
                n == ms.len(),
                out@.len() == i,
                forall|k: int|
                    0 <= k < i ==> (#[trigger] out@[k]).0@ == ms@[k]@.predicate && out@[k].1@
                        == ms@[k]@.object,
        {
            let q = &ms[i];
            out.push((q.predicate.clone(), q.object.clone()));
        }
        proof {
            assert(out@.map_values(|p: (IRI, Node)| (p.0@, p.1@)) =~= quad_views(ms@).map_values(
                |q: QuadV| (q.predicate, q.object),
            ));
        }
        out
    }

    /// Inserts every quad of `src`.
    fn insert_all(&mut self, src: &Dataset)
        ensures
            final(self)@ == old(self)@ + src@,
    {
        proof {
            use_type_invariant(src);
        }
        let n = src.quads.len();
        for i in 0..n
            invariant
                n == src.quads.len(),
                self@ == old(self)@ + src.quad_seq().subrange(0, i as int).to_set(),
        {
            proof {
                broadcast use vstd::prelude::Seq::lemma_push_to_set_commute;

            }
            let ghost pre = src.quad_seq().subrange(0, i as int);
            let q = (&src.quads[i]).clone();
            self.insert(q);
            proof {
                assert(src.quad_seq().subrange(0, i + 1) =~= pre.push(src.quad_seq()[i as int]));
                assert(old(self)@ + pre.to_set().insert(src.quad_seq()[i as int]) =~= (old(self)@
                    + pre.to_set()).insert(src.quad_seq()[i as int]));
            }
        }
        proof {
            assert(src.quad_seq().subrange(0, src.quad_seq().len() as int) =~= src.quad_seq());
        }
    }
}

/// Whether a quad passes all four filters (executable form).
fn quad_matches_exec(
    q: &Quad,
    subject: Option<&Identifier>,
    predicate: Option<&IRI>,
    object: Option<&Node>,
    context: &ContextFilter,
) -> (r: bool)
    ensures
        r == quad_matches(
            q@,
            opt_ref_identifier_view(subject),
            opt_ref_iri_view(predicate),
            opt_ref_node_view(object),
            context@,
        ),
{
    let subject_ok = match subject {
        Option::Some(s) => *s == q.subject,
        Option::None => true,
    };
    let predicate_ok = match predicate {
        Option::Some(p) => *p == q.predicate,
        Option::None => true,
    };
    let object_ok = match object {
        Option::Some(o) => *o == q.object,
        Option::None => true,
    };
    let context_ok = match context {
        ContextFilter::Unconstrained => true,
        ContextFilter::DefaultGraphOnly => match &q.context {
            Option::Some(_) => false,
            Option::None => true,
        },
        ContextFilter::NamedGraph(id) => match &q.context {
            Option::Some(c) => *c == *id,
            Option::None => false,
        },
    };
    subject_ok && predicate_ok && object_ok && context_ok
}

/// Inserting a quad a second time changes neither the set, nor its size, nor
/// membership.
pub proof fn lemma_insert_idempotent(s: Set<QuadV>, q: QuadV)
    requires
        s.finite(),
    ensures
        s.insert(q).insert(q) == s.insert(q),
        s.insert(q).insert(q).len() == s.insert(q).len(),
        s.insert(q).insert(q).contains(q),
{
    assert(s.insert(q).insert(q) =~= s.insert(q));
}

/// Union of quad sets is commutative.
pub proof fn lemma_union_commutative(a: Set<QuadV>, b: Set<QuadV>)
    ensures
        a + b == b + a,
{
    assert(a + b =~= b + a);
}

/// The difference of a quad set with itself is empty.
pub proof fn lemma_difference_self_empty(a: Set<QuadV>)
    ensures
        a.difference(a) == Set::<QuadV>::empty(),
{
    assert(a.difference(a) =~= Set::<QuadV>::empty());
}

/// Union with `difference(b, a)` covers `a`.
pub proof fn lemma_union_difference_covers(a: Set<QuadV>, b: Set<QuadV>)
    ensures
        a.subset_of(a + b.difference(a)),
{
}

} // verus!
