//! The read service: turn a bag of optional textual term parameters into a
//! pattern match over a dataset.

use vstd::prelude::*;
use crate::dataset::{
    quad_matches,
    quad_views,
    ContextFilter,
    ContextFilterV,
    Dataset,
};
use crate::nquads_deserialize::{
    fault_text,
    sp_identifier,
    sp_iri,
    sp_node,
    Fault,
    PResult,
};
use crate::quad::{Quad, QuadV};
use crate::term::{Identifier, IdentifierV, Node, NodeV, IRI};

verus! {

/// The parameter bag of a read request: each field is either absent (no
/// constraint) or the N-Quads text of one term.
#[derive(Debug, Clone)]
pub struct Params {
    pub subject: Option<String>,
    pub predicate: Option<String>,
    pub object: Option<String>,
    pub context: Option<String>,
}

/// The filters a parameter bag stands for, or the first fault among its
/// fields, checked in the order subject, predicate, object, context. Each
/// present field is parsed from its start; text after the term is ignored. A
/// present context names one graph; an absent one leaves the context
/// unconstrained.
pub open spec fn read_filters(params: Params) -> Result<
    (Option<IdentifierV>, Option<Seq<char>>, Option<NodeV>, ContextFilterV),
    Fault,
> {
    let subject = match params.subject {
        Option::Some(text) => match sp_identifier(text@, 0) {
            PResult::Parsed(v, _) => Result::Ok(Option::Some(v)),
            PResult::Failed(f) => Result::Err(f),
        },
        Option::None => Result::Ok(Option::None),
    };
    let predicate = match params.predicate {
        Option::Some(text) => match sp_iri(text@, 0) {
            PResult::Parsed(v, _) => Result::Ok(Option::Some(v)),
            PResult::Failed(f) => Result::Err(f),
        },
        Option::None => Result::Ok(Option::None),
    };
    let object = match params.object {
        Option::Some(text) => match sp_node(text@, 0) {
            PResult::Parsed(v, _) => Result::Ok(Option::Some(v)),
            PResult::Failed(f) => Result::Err(f),
        },
        Option::None => Result::Ok(Option::None),
    };
    let context = match params.context {
        Option::Some(text) => match sp_identifier(text@, 0) {
            PResult::Parsed(v, _) => Result::Ok(ContextFilterV::NamedGraph(v)),
            PResult::Failed(f) => Result::Err(f),
        },
        Option::None => Result::Ok(ContextFilterV::Unconstrained),
    };
    match (subject, predicate, object, context) {
        (Result::Err(f), _, _, _) => Result::Err(f),
        (Result::Ok(_), Result::Err(f), _, _) => Result::Err(f),
        (Result::Ok(_), Result::Ok(_), Result::Err(f), _) => Result::Err(f),
        (Result::Ok(_), Result::Ok(_), Result::Ok(_), Result::Err(f)) => Result::Err(f),
        (Result::Ok(s), Result::Ok(p), Result::Ok(o), Result::Ok(c)) => Result::Ok((s, p, o, c)),
    }
}

/// Parses the parameters and matches the dataset against them. A fault in a
/// parameter comes back as its message; otherwise the result is exactly the
/// set of stored quads passing every provided filter.
pub fn read(params: &Params, dataset: &Dataset) -> (r: Result<Vec<Quad>, String>)
    ensures
        match read_filters(*params) {
            Result::Err(f) => r matches Err(m) && m@ == fault_text(f),
            Result::Ok((sv, pv, ov, cv)) => r matches Ok(quads) && quad_views(quads@)
                == dataset.matched_quads(sv, pv, ov, cv) && quad_views(quads@).no_duplicates()
                && (forall|v: QuadV|
                #[trigger] quad_views(quads@).contains(v) <==> (dataset@.contains(v)
                    && quad_matches(v, sv, pv, ov, cv))),
        },
{
    let subject: Option<Identifier> = match &params.subject {
        Option::Some(text) => {
            let chars = crate::text::str_to_char_vec(text.as_str());
            let (result, _) = crate::nquads_deserialize::deserialize_identifier(&chars, 0);
            match result {
                Ok(id) => Option::Some(id),
                Err(m) => {
                    return Err(m);
                },
            }
        },
        Option::None => Option::None,
    };
    let predicate: Option<IRI> = match &params.predicate {
        Option::Some(text) => {
            let chars = crate::text::str_to_char_vec(text.as_str());
            let (result, _) = crate::nquads_deserialize::deserialize_iri(&chars, 0);
            match result {
                Ok(iri) => Option::Some(iri),
                Err(m) => {
                    return Err(m);
                },
            }
        },
        Option::None => Option::None,
    };
    let object: Option<Node> = match &params.object {
        Option::Some(text) => {
            let chars = crate::text::str_to_char_vec(text.as_str());
            let (result, _) = crate::nquads_deserialize::deserialize_node(&chars, 0);
            match result {
                Ok(node) => Option::Some(node),
                Err(m) => {
                    return Err(m);
                },
            }
        },
        Option::None => Option::None,
    };
    let context: ContextFilter = match &params.context {
        Option::Some(text) => {
            let chars = crate::text::str_to_char_vec(text.as_str());
            let (result, _) = crate::nquads_deserialize::deserialize_identifier(&chars, 0);
            match result {
                Ok(id) => ContextFilter::NamedGraph(id),
                Err(m) => {
                    return Err(m);
                },
            }
        },
        Option::None => ContextFilter::Unconstrained,
    };
    Ok(dataset.match_quads(subject.as_ref(), predicate.as_ref(), object.as_ref(), &context))
}

} // verus!
