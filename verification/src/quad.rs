//! Quads: immutable subject–predicate–object facts, optionally scoped to a
//! named graph (the context).

use vstd::prelude::*;
use crate::term::{Identifier, IdentifierV, Node, NodeV, IRI};

verus! {

pub type Subject = Identifier;

pub type Predicate = IRI;

pub type Object = Node;

pub type Context = Option<Identifier>;

/// View of an optional identifier (a context) as its mathematical value;
/// `None` stands for the default graph.
pub open spec fn opt_identifier_view(c: Option<Identifier>) -> Option<IdentifierV> {
    match c {
        Option::Some(id) => Option::Some(id@),
        Option::None => Option::None,
    }
}

/// The mathematical value of a [`Quad`].
pub struct QuadV {
    pub subject: IdentifierV,
    pub predicate: Seq<char>,
    pub object: NodeV,
    pub context: Option<IdentifierV>,
}

/// A free-standing 4-tuple fact; equality is structural over all four fields,
/// with a `None` context distinct from every `Some(_)` context.
#[derive(Debug, Eq, Hash)]
pub struct Quad {
    pub subject: Subject,
    pub predicate: Predicate,
    pub object: Object,
    pub context: Context,
}

impl View for Quad {
    type V = QuadV;

    open spec fn view(&self) -> QuadV {
        QuadV {
            subject: self.subject@,
            predicate: self.predicate@,
            object: self.object@,
            context: opt_identifier_view(self.context),
        }
    }
}

impl Quad {
    /// Assembles a quad from already-coerced term values; cannot fail.
    pub fn new(subject: Subject, predicate: Predicate, object: Object, context: Context) -> (r:
        Quad)
        ensures
            r@ == (QuadV {
                subject: subject@,
                predicate: predicate@,
                object: object@,
                context: opt_identifier_view(context),
            }),
    {
        Quad { subject, predicate, object, context }
    }
}

impl Clone for Quad {
    fn clone(&self) -> (r: Quad)
        ensures
            r == *self,
    {
        Quad {
            subject: self.subject.clone(),
            predicate: self.predicate.clone(),
            object: self.object.clone(),
            context: match &self.context {
                Option::Some(id) => Option::Some(id.clone()),
                Option::None => Option::None,
            },
        }
    }
}

/// Quad identity is exactly field-by-field identity.
pub proof fn lemma_quad_identity(a: QuadV, b: QuadV)
    ensures
        (a == b) <==> (a.subject == b.subject && a.predicate == b.predicate && a.object == b.object
            && a.context == b.context),
{
    if a.subject == b.subject && a.predicate == b.predicate && a.object == b.object && a.context
        == b.context {
        assert(a == QuadV {
            subject: a.subject,
            predicate: a.predicate,
            object: a.object,
            context: a.context,
        });
        assert(b == QuadV {
            subject: a.subject,
            predicate: a.predicate,
            object: a.object,
            context: a.context,
        });
    }
}

/// Equality of optional identifiers, by content.
fn opt_identifier_eq(a: &Option<Identifier>, b: &Option<Identifier>) -> (r: bool)
    ensures
        r == (opt_identifier_view(*a) == opt_identifier_view(*b)),
{
    match (a, b) {
        (Option::Some(x), Option::Some(y)) => *x == *y,
        (Option::None, Option::None) => true,
        _ => false,
    }
}

impl PartialEq for Quad {
    fn eq(&self, other: &Quad) -> (r: bool) {
        proof {
            lemma_quad_identity(self@, other@);
        }
        let subject_eq = self.subject == other.subject;
        let predicate_eq = self.predicate == other.predicate;
        let object_eq = self.object == other.object;
        let context_eq = opt_identifier_eq(&self.context, &other.context);
        subject_eq && predicate_eq && object_eq && context_eq
    }
}

impl vstd::std_specs::cmp::PartialEqSpecImpl for Quad {
    open spec fn obeys_eq_spec() -> bool {
        true
    }

    open spec fn eq_spec(&self, other: &Quad) -> bool {
        self@ == other@
    }
}

} // verus!
