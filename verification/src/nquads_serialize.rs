//! N-Quads serializer: deterministic text encoding of terms and quads.
//!
//! The exact text produced is pinned down by the `ser_*` spec functions; each
//! executable function is proved to emit precisely that character sequence.

use vstd::prelude::*;
use vstd::string::StrSliceExecFns;
use vstd::string::StringExecFns;
use crate::dataset::quad_views;
use crate::namespace::xsd_string;
use crate::quad::{Quad, QuadV};
use crate::term::{BlankNode, Identifier, IdentifierV, Literal, LiteralV, Node, NodeV, IRI};

verus! {

/// A literal's lexical form with every `"` escaped to `\"`; all other
/// characters pass through untouched.
pub open spec fn escape_value(v: Seq<char>) -> Seq<char>
    decreases v.len(),
{
    if v.len() == 0 {
        Seq::empty()
    } else {
        escape_value(v.drop_last()) + (if v.last() == '"' {
            seq!['\\', '"']
        } else {
            seq![v.last()]
        })
    }
}

/// `<value>`: angle-bracket wrapped, with no internal escaping.
pub open spec fn ser_iri(v: Seq<char>) -> Seq<char> {
    seq!['<'] + v + seq!['>']
}

/// `_:label`.
pub open spec fn ser_blank_node(v: Seq<char>) -> Seq<char> {
    seq!['_', ':'] + v
}

/// `"escaped"` with an `@lang` suffix when a language tag is present, a
/// `^^<datatype>` suffix when the datatype is not `xsd:string`, and no suffix
/// otherwise.
pub open spec fn ser_literal(l: LiteralV) -> Seq<char> {
    let quoted = seq!['"'] + escape_value(l.value) + seq!['"'];
    match l.language {
        Option::Some(lang) => quoted + seq!['@'] + lang,
        Option::None => if l.datatype != xsd_string() {
            quoted + seq!['^', '^'] + ser_iri(l.datatype)
        } else {
            quoted
        },
    }
}

/// IRI or blank-node form, by variant.
pub open spec fn ser_identifier(id: IdentifierV) -> Seq<char> {
    match id {
        IdentifierV::IRI(v) => ser_iri(v),
        IdentifierV::BlankNode(v) => ser_blank_node(v),
    }
}

/// IRI, blank-node or literal form, by variant.
pub open spec fn ser_node(n: NodeV) -> Seq<char> {
    match n {
        NodeV::IRI(v) => ser_iri(v),
        NodeV::BlankNode(v) => ser_blank_node(v),
        NodeV::Literal(l) => ser_literal(l),
    }
}

/// `<subject> <predicate> <object>[ <context>] .` — the context clause only
/// when the quad lives in a named graph.
pub open spec fn ser_quad(q: QuadV) -> Seq<char> {
    ser_identifier(q.subject) + seq![' '] + ser_iri(q.predicate) + seq![' '] + ser_node(q.object)
        + (match q.context {
        Option::Some(c) => seq![' '] + ser_identifier(c),
        Option::None => Seq::empty(),
    }) + seq![' ', '.']
}

/// One line per quad, each terminated by a single line break; input order is
/// kept and nothing is deduplicated.
pub open spec fn ser_lines(qs: Seq<QuadV>) -> Seq<char>
    decreases qs.len(),
{
    if qs.len() == 0 {
        Seq::empty()
    } else {
        ser_lines(qs.drop_last()) + ser_quad(qs.last()) + seq!['\n']
    }
}

/// Serializes an IRI term.
pub fn serialize_iri(iri: IRI) -> (r: String)
    ensures
        r@ == ser_iri(iri@),
{
    let mut out = String::new();
    out.push('<');
    out.append(iri.value.as_str());
    out.push('>');
    proof {
        assert(out@ =~= ser_iri(iri@));
    }
    out
}

/// Serializes a blank node term.
pub fn serialize_blank_node(blank_node: BlankNode) -> (r: String)
    ensures
        r@ == ser_blank_node(blank_node@),
{
    let mut out = String::new();
    out.push('_');
    out.push(':');
    out.append(blank_node.value.as_str());
    proof {
        assert(out@ =~= ser_blank_node(blank_node@));
    }
    out
}

/// The lexical form of a literal with each `"` escaped to `\"`.
fn escape_quotes(value: &str) -> (r: String)
    ensures
        r@ == escape_value(value@),
{
    let chars = crate::text::str_to_char_vec(value);
    let mut out = String::new();
    let n = chars.len();
    proof {
        assert(value@.subrange(0, 0) =~= Seq::<char>::empty());
    }
    for i in 0..n
        invariant
            n == chars.len(),
            chars@ == value@,
            out@ == escape_value(value@.subrange(0, i as int)),
    {
        let ghost pre = value@.subrange(0, i as int);
        let c = chars[i];
        if c == '"' {
            out.push('\\');
            out.push('"');
        } else {
            out.push(c);
        }
        proof {
            let sub = value@.subrange(0, i + 1);
            assert(sub.drop_last() =~= pre);
            assert(sub.last() == value@[i as int]);
            if c == '"' {
                assert(out@ =~= escape_value(pre) + seq!['\\', '"']);
            } else {
                assert(out@ =~= escape_value(pre) + seq![c]);
            }
        }
    }
    proof {
        assert(value@.subrange(0, value@.len() as int) =~= value@);
    }
    out
}

/// Serializes a literal term.
pub fn serialize_literal(literal: Literal) -> (r: String)
    ensures
        r@ == ser_literal(literal@),
{
    let escaped = escape_quotes(literal.value.as_str());
    let mut out = String::new();
    out.push('"');
    out.append(escaped.as_str());
    out.push('"');
    let ghost quoted = seq!['"'] + escape_value(literal@.value) + seq!['"'];
    proof {
        assert(out@ =~= quoted);
    }
    match &literal.language {
        Option::Some(lang) => {
            out.push('@');
            out.append(lang.as_str());
            proof {
                assert(out@ =~= quoted + seq!['@'] + lang@);
            }
        },
        Option::None => {
            let xsd = crate::namespace::xsd_string_iri();
            if !(literal.datatype == xsd) {
                out.push('^');
                out.push('^');
                out.push('<');
                out.append(literal.datatype.value.as_str());
                out.push('>');
                proof {
                    assert(out@ =~= quoted + seq!['^', '^'] + ser_iri(literal@.datatype));
                }
            }
        },
    }
    out
}

/// Serializes a subject or context term.
pub fn serialize_identifier(identifier: Identifier) -> (r: String)
    ensures
        r@ == ser_identifier(identifier@),
{
    match identifier {
        Identifier::IRI(iri) => serialize_iri(iri),
        Identifier::BlankNode(blank_node) => serialize_blank_node(blank_node),
    }
}

/// Serializes an object term.
pub fn serialize_node(node: Node) -> (r: String)
    ensures
        r@ == ser_node(node@),
{
    match node {
        Node::BlankNode(blank_node) => serialize_blank_node(blank_node),
        Node::IRI(iri) => serialize_iri(iri),
        Node::Literal(literal) => serialize_literal(literal),
    }
}

/// Serializes one quad as a single line, without the trailing line break.
pub fn serialize_quad(quad: Quad) -> (r: String)
    ensures
        r@ == ser_quad(quad@),
{
    let ghost qv = quad@;
    let mut out = serialize_identifier(quad.subject);
    out.push(' ');
    let predicate_text = serialize_iri(quad.predicate);
    out.append(predicate_text.as_str());
    out.push(' ');
    let object_text = serialize_node(quad.object);
    out.append(object_text.as_str());
    match quad.context {
        Option::Some(identifier) => {
            out.push(' ');
            let context_text = serialize_identifier(identifier);
            out.append(context_text.as_str());
        },
        Option::None => {},
    }
    out.push(' ');
    out.push('.');
    proof {
        assert(out@ =~= ser_quad(qv));
    }
    out
}

/// Serializes a sequence of quads, one line each, each line terminated by a
/// line break; order is kept and nothing is deduplicated.
pub fn serialize(quads: &Vec<Quad>) -> (r: String)
    ensures
        r@ == ser_lines(quad_views(quads@)),
{
    let mut out = String::new();
    let n = quads.len();
    proof {
        assert(quad_views(quads@).subrange(0, 0) =~= Seq::<QuadV>::empty());
    }
    for i in 0..n
        invariant
            n == quads.len(),
            out@ == ser_lines(quad_views(quads@).subrange(0, i as int)),
    {
        let ghost pre = quad_views(quads@).subrange(0, i as int);
        let line = serialize_quad((&quads[i]).clone());
        out.append(line.as_str());
        out.push('\n');
        proof {
            let sub = quad_views(quads@).subrange(0, i + 1);
            assert(sub.drop_last() =~= pre);
            assert(sub.last() == quads@[i as int]@);
            assert(out@ =~= ser_lines(pre) + ser_quad(quads@[i as int]@) + seq!['\n']);
        }
    }
    proof {
        assert(quad_views(quads@).subrange(0, quads@.len() as int) =~= quad_views(quads@));
    }
    out
}

} // verus!
