//! N-Quads parser: single-pass, single-lookahead text decoding of quads with
//! line/column error reporting.
//!
//! The grammar is pinned down by the `sp_*` spec functions, which consume a
//! character sequence from a position and either produce a value with the
//! position after it, or fail. Each executable function is proved to behave
//! exactly as its spec function says.

use vstd::prelude::*;
use vstd::string::StringExecFns;
use crate::namespace::xsd_string;
use crate::quad::{Quad, QuadV};
use crate::term::{BlankNode, Identifier, IdentifierV, Literal, LiteralV, Node, NodeV, IRI};

verus! {

/// What went wrong, before position information is attached.
pub enum Fault {
    UnexpectedChar(char),
    UnexpectedEof,
}

/// The message text of a fault.
pub open spec fn fault_text(f: Fault) -> Seq<char> {
    match f {
        Fault::UnexpectedChar(c) => "Unexpected character "@.push(c),
        Fault::UnexpectedEof => "Unexpected EOF"@,
    }
}

/// The message text of a fault, as a string.
fn fault_message(f: Fault) -> (r: String)
    ensures
        r@ == fault_text(f),
{
    match f {
        Fault::UnexpectedChar(c) => {
            let mut s = String::from_str("Unexpected character ");
            s.push(c);
            s
        },
        Fault::UnexpectedEof => String::from_str("Unexpected EOF"),
    }
}

/// Outcome of one spec-level scanning step: a parsed value with the position
/// just after it, or a fault.
pub enum PResult<T> {
    Parsed(T, nat),
    Failed(Fault),
}

/// Scans an IRI body up to the closing `>`; everything before it is taken
/// verbatim into the accumulator.
pub open spec fn sp_iri_tail(s: Seq<char>, i: nat, acc: Seq<char>) -> PResult<Seq<char>>
    decreases s.len() - i,
{
    if i >= s.len() {
        PResult::Failed(Fault::UnexpectedEof)
    } else if s[i as int] == '>' {
        PResult::Parsed(acc, i + 1)
    } else {
        sp_iri_tail(s, i + 1, acc.push(s[i as int]))
    }
}

/// Parses `<value>`.
pub open spec fn sp_iri(s: Seq<char>, i: nat) -> PResult<Seq<char>> {
    if i >= s.len() {
        PResult::Failed(Fault::UnexpectedEof)
    } else if s[i as int] != '<' {
        PResult::Failed(Fault::UnexpectedChar(s[i as int]))
    } else {
        sp_iri_tail(s, i + 1, Seq::empty())
    }
}

/// Scans a blank-node label up to a separating space (which is consumed) or
/// the end of input; at the end of input an empty label is a fault.
pub open spec fn sp_blank_label(s: Seq<char>, i: nat, acc: Seq<char>) -> PResult<Seq<char>>
    decreases s.len() - i,
{
    if i >= s.len() {
        if acc.len() == 0 {
            PResult::Failed(Fault::UnexpectedEof)
        } else {
            PResult::Parsed(acc, i)
        }
    } else if s[i as int] == ' ' {
        PResult::Parsed(acc, i + 1)
    } else {
        sp_blank_label(s, i + 1, acc.push(s[i as int]))
    }
}

/// Parses `_:label`.
pub open spec fn sp_blank_node(s: Seq<char>, i: nat) -> PResult<Seq<char>> {
    if i >= s.len() {
        PResult::Failed(Fault::UnexpectedEof)
    } else if s[i as int] != '_' {
        PResult::Failed(Fault::UnexpectedChar(s[i as int]))
    } else if i + 1 >= s.len() {
        PResult::Failed(Fault::UnexpectedEof)
    } else if s[i + 1 as int] != ':' {
        PResult::Failed(Fault::UnexpectedChar(s[i + 1 as int]))
    } else {
        sp_blank_label(s, i + 2, Seq::empty())
    }
}

/// Scans a literal's lexical form up to an unescaped closing `"`; a backslash
/// toggles the escape flag and is never taken into the value.
pub open spec fn sp_literal_tail(s: Seq<char>, i: nat, acc: Seq<char>, escaped: bool) -> PResult<
    Seq<char>,
>
    decreases s.len() - i,
{
    if i >= s.len() {
        PResult::Failed(Fault::UnexpectedEof)
    } else if s[i as int] == '\\' {
        sp_literal_tail(s, i + 1, acc, !escaped)
    } else if s[i as int] == '"' && !escaped {
        PResult::Parsed(acc, i + 1)
    } else {
        sp_literal_tail(s, i + 1, acc.push(s[i as int]), false)
    }
}

/// Parses `"value"`, honoring `\"` escapes.
pub open spec fn sp_literal_value(s: Seq<char>, i: nat) -> PResult<Seq<char>> {
    if i >= s.len() {
        PResult::Failed(Fault::UnexpectedEof)
    } else if s[i as int] != '"' {
        PResult::Failed(Fault::UnexpectedChar(s[i as int]))
    } else {
        sp_literal_tail(s, i + 1, Seq::empty(), false)
    }
}

/// Parses `^^<datatype>`.
pub open spec fn sp_datatype(s: Seq<char>, i: nat) -> PResult<Seq<char>> {
    if i >= s.len() {
        PResult::Failed(Fault::UnexpectedEof)
    } else if s[i as int] != '^' {
        PResult::Failed(Fault::UnexpectedChar(s[i as int]))
    } else if i + 1 >= s.len() {
        PResult::Failed(Fault::UnexpectedEof)
    } else if s[i + 1 as int] != '^' {
        PResult::Failed(Fault::UnexpectedChar(s[i + 1 as int]))
    } else {
        sp_iri(s, i + 2)
    }
}

/// Scans a language tag up to (not consuming) a space, a dot or the end of
/// input.
pub open spec fn sp_language_tail(s: Seq<char>, i: nat, acc: Seq<char>) -> PResult<Seq<char>>
    decreases s.len() - i,
{
    if i >= s.len() {
        PResult::Parsed(acc, i)
    } else if s[i as int] == ' ' || s[i as int] == '.' {
        PResult::Parsed(acc, i)
    } else {
        sp_language_tail(s, i + 1, acc.push(s[i as int]))
    }
}

/// Parses `@lang`.
pub open spec fn sp_language(s: Seq<char>, i: nat) -> PResult<Seq<char>> {
    if i >= s.len() {
        PResult::Failed(Fault::UnexpectedEof)
    } else if s[i as int] != '@' {
        PResult::Failed(Fault::UnexpectedChar(s[i as int]))
    } else {
        sp_language_tail(s, i + 1, Seq::empty())
    }
}

/// Parses a full literal: the quoted value, then an optional `^^<datatype>`
/// or `@lang` suffix; without a suffix the datatype defaults to `xsd:string`.
pub open spec fn sp_literal(s: Seq<char>, i: nat) -> PResult<LiteralV> {
    match sp_literal_value(s, i) {
        PResult::Failed(f) => PResult::Failed(f),
        PResult::Parsed(value, j) => {
            if j < s.len() && s[j as int] == '^' {
                match sp_datatype(s, j) {
                    PResult::Failed(f) => PResult::Failed(f),
                    PResult::Parsed(datatype, k) => PResult::Parsed(
                        LiteralV { value, datatype, language: Option::None },
                        k,
                    ),
                }
            } else if j < s.len() && s[j as int] == '@' {
                match sp_language(s, j) {
                    PResult::Failed(f) => PResult::Failed(f),
                    PResult::Parsed(language, k) => PResult::Parsed(
                        LiteralV {
                            value,
                            datatype: xsd_string(),
                            language: Option::Some(language),
                        },
                        k,
                    ),
                }
            } else {
                PResult::Parsed(
                    LiteralV { value, datatype: xsd_string(), language: Option::None },
                    j,
                )
            }
        },
    }
}

/// Parses a subject or context term: an IRI or a blank node, dispatched on
/// the first character.
pub open spec fn sp_identifier(s: Seq<char>, i: nat) -> PResult<IdentifierV> {
    if i >= s.len() {
        PResult::Failed(Fault::UnexpectedEof)
    } else if s[i as int] == '<' {
        match sp_iri(s, i) {
            PResult::Failed(f) => PResult::Failed(f),
            PResult::Parsed(v, j) => PResult::Parsed(IdentifierV::IRI(v), j),
        }
    } else if s[i as int] == '_' {
        match sp_blank_node(s, i) {
            PResult::Failed(f) => PResult::Failed(f),
            PResult::Parsed(v, j) => PResult::Parsed(IdentifierV::BlankNode(v), j),
        }
    } else {
        PResult::Failed(Fault::UnexpectedChar(s[i as int]))
    }
}

/// Parses an object term: an IRI, a literal or a blank node, dispatched on
/// the first character.
pub open spec fn sp_node(s: Seq<char>, i: nat) -> PResult<NodeV> {
    if i >= s.len() {
        PResult::Failed(Fault::UnexpectedEof)
    } else if s[i as int] == '<' {
        match sp_iri(s, i) {
            PResult::Failed(f) => PResult::Failed(f),
            PResult::Parsed(v, j) => PResult::Parsed(NodeV::IRI(v), j),
        }
    } else if s[i as int] == '"' {
        match sp_literal(s, i) {
            PResult::Failed(f) => PResult::Failed(f),
            PResult::Parsed(l, j) => PResult::Parsed(NodeV::Literal(l), j),
        }
    } else if s[i as int] == '_' {
        match sp_blank_node(s, i) {
            PResult::Failed(f) => PResult::Failed(f),
            PResult::Parsed(v, j) => PResult::Parsed(NodeV::BlankNode(v), j),
        }
    } else {
        PResult::Failed(Fault::UnexpectedChar(s[i as int]))
    }
}

/// A successful IRI-body scan ends strictly after where it started and within
/// the input.
proof fn lemma_sp_iri_tail_bounds(s: Seq<char>, i: nat, acc: Seq<char>)
    requires
        i <= s.len(),
    ensures
        sp_iri_tail(s, i, acc) matches PResult::Parsed(_, j) ==> i < j <= s.len(),
    decreases s.len() - i,
{
    if i < s.len() && s[i as int] != '>' {
        lemma_sp_iri_tail_bounds(s, i + 1, acc.push(s[i as int]));
    }
}

/// A successful blank-label scan ends no earlier than where it started and
/// within the input.
proof fn lemma_sp_blank_label_bounds(s: Seq<char>, i: nat, acc: Seq<char>)
    requires
        i <= s.len(),
    ensures
        sp_blank_label(s, i, acc) matches PResult::Parsed(_, j) ==> i <= j <= s.len(),
    decreases s.len() - i,
{
    if i < s.len() && s[i as int] != ' ' {
        lemma_sp_blank_label_bounds(s, i + 1, acc.push(s[i as int]));
    }
}

/// A successful literal-body scan ends strictly after where it started and
/// within the input.
proof fn lemma_sp_literal_tail_bounds(s: Seq<char>, i: nat, acc: Seq<char>, escaped: bool)
    requires
        i <= s.len(),
    ensures
        sp_literal_tail(s, i, acc, escaped) matches PResult::Parsed(_, j) ==> i < j <= s.len(),
    decreases s.len() - i,
{
    if i < s.len() {
        if s[i as int] == '\\' {
            lemma_sp_literal_tail_bounds(s, i + 1, acc, !escaped);
        } else if !(s[i as int] == '"' && !escaped) {
            lemma_sp_literal_tail_bounds(s, i + 1, acc.push(s[i as int]), false);
        }
    }
}

/// A successful language-tag scan ends no earlier than where it started and
/// within the input.
proof fn lemma_sp_language_tail_bounds(s: Seq<char>, i: nat, acc: Seq<char>)
    requires
        i <= s.len(),
    ensures
        sp_language_tail(s, i, acc) matches PResult::Parsed(_, j) ==> i <= j <= s.len(),
    decreases s.len() - i,
{
    if i < s.len() && !(s[i as int] == ' ' || s[i as int] == '.') {
        lemma_sp_language_tail_bounds(s, i + 1, acc.push(s[i as int]));
    }
}

/// A successfully parsed identifier ends strictly after where it started and
/// within the input.
pub proof fn lemma_sp_identifier_bounds(s: Seq<char>, i: nat)
    requires
        i <= s.len(),
    ensures
        sp_identifier(s, i) matches PResult::Parsed(_, j) ==> i < j <= s.len(),
{
    if i < s.len() {
        lemma_sp_iri_tail_bounds(s, i + 1, Seq::empty());
        if i + 2 <= s.len() {
            lemma_sp_blank_label_bounds(s, i + 2, Seq::empty());
        }
    }
}

/// A successfully parsed IRI term ends strictly after where it started and
/// within the input.
pub proof fn lemma_sp_iri_bounds(s: Seq<char>, i: nat)
    requires
        i <= s.len(),
    ensures
        sp_iri(s, i) matches PResult::Parsed(_, j) ==> i < j <= s.len(),
{
    if i < s.len() {
        lemma_sp_iri_tail_bounds(s, i + 1, Seq::empty());
    }
}

/// A successfully parsed literal ends strictly after where it started and
/// within the input.
proof fn lemma_sp_literal_bounds(s: Seq<char>, i: nat)
    requires
        i <= s.len(),
    ensures
        sp_literal(s, i) matches PResult::Parsed(_, j) ==> i < j <= s.len(),
{
    if i < s.len() {
        lemma_sp_literal_tail_bounds(s, i + 1, Seq::empty(), false);
        match sp_literal_value(s, i) {
            PResult::Parsed(value, j) => {
                if j < s.len() && s[j as int] == '^' {
                    if j + 2 <= s.len() {
                        lemma_sp_iri_bounds(s, j + 2);
                    }
                } else if j < s.len() && s[j as int] == '@' {
                    lemma_sp_language_tail_bounds(s, j + 1, Seq::empty());
                }
            },
            PResult::Failed(_) => {},
        }
    }
}

/// A successfully parsed object term ends strictly after where it started and
/// within the input.
pub proof fn lemma_sp_node_bounds(s: Seq<char>, i: nat)
    requires
        i <= s.len(),
    ensures
        sp_node(s, i) matches PResult::Parsed(_, j) ==> i < j <= s.len(),
{
    if i < s.len() {
        lemma_sp_iri_bounds(s, i);
        lemma_sp_literal_bounds(s, i);
        if i + 2 <= s.len() {
            lemma_sp_blank_label_bounds(s, i + 2, Seq::empty());
        }
    }
}

/// Parses `<value>` from `chars` at `start`; returns the term or the fault
/// message, and the position after what was consumed.
pub fn deserialize_iri(chars: &Vec<char>, start: usize) -> (r: (Result<IRI, String>, usize))
    requires
        start <= chars@.len(),
    ensures
        start <= r.1 <= chars@.len(),
        match sp_iri(chars@, start as nat) {
            PResult::Parsed(v, j) => r.0 matches Ok(iri) && iri@ == v && r.1 == j,
            PResult::Failed(f) => r.0 matches Err(m) && m@ == fault_text(f),
        },
{
    let mut pos = start;
    if pos >= chars.len() {
        return (Err(fault_message(Fault::UnexpectedEof)), pos);
    }
    let c = chars[pos];
    if c != '<' {
        return (Err(fault_message(Fault::UnexpectedChar(c))), pos);
    }
    pos = pos + 1;
    let ghost tail_start = pos as nat;
    let mut acc = String::new();
    loop
        invariant
            tail_start <= pos <= chars@.len(),
            start < pos,
            sp_iri_tail(chars@, tail_start, Seq::empty()) == sp_iri_tail(
                chars@,
                pos as nat,
                acc@,
            ),
            sp_iri(chars@, start as nat) == sp_iri_tail(chars@, tail_start, Seq::empty()),
        decreases chars@.len() - pos,
    {
        if pos >= chars.len() {
            return (Err(fault_message(Fault::UnexpectedEof)), pos);
        }
        let c = chars[pos];
        pos = pos + 1;
        if c == '>' {
            return (Ok(IRI::new(acc)), pos);
        }
        acc.push(c);
    }
}

/// Parses `_:label` from `chars` at `start`.
fn deserialize_blank_node(chars: &Vec<char>, start: usize) -> (r: (Result<BlankNode, String>, usize))
    requires
        start <= chars@.len(),
    ensures
        start <= r.1 <= chars@.len(),
        match sp_blank_node(chars@, start as nat) {
            PResult::Parsed(v, j) => r.0 matches Ok(b) && b@ == v && r.1 == j,
            PResult::Failed(f) => r.0 matches Err(m) && m@ == fault_text(f),
        },
{
    let mut pos = start;
    if pos >= chars.len() {
        return (Err(fault_message(Fault::UnexpectedEof)), pos);
    }
    let c0 = chars[pos];
    if c0 != '_' {
        return (Err(fault_message(Fault::UnexpectedChar(c0))), pos);
    }
    pos = pos + 1;
    if pos >= chars.len() {
        return (Err(fault_message(Fault::UnexpectedEof)), pos);
    }
    let c1 = chars[pos];
    if c1 != ':' {
        return (Err(fault_message(Fault::UnexpectedChar(c1))), pos);
    }
    pos = pos + 1;
    let ghost tail_start = pos as nat;
    let mut acc = String::new();
    loop
        invariant
            tail_start <= pos <= chars@.len(),
            start < pos,
            acc@.len() == pos - tail_start,
            sp_blank_label(chars@, tail_start, Seq::empty()) == sp_blank_label(
                chars@,
                pos as nat,
                acc@,
            ),
            sp_blank_node(chars@, start as nat) == sp_blank_label(chars@, tail_start, Seq::empty()),
        decreases chars@.len() - pos,
    {
        if pos >= chars.len() {
            if acc.as_str().is_empty() {
                return (Err(fault_message(Fault::UnexpectedEof)), pos);
            }
            return (Ok(BlankNode::from_value(acc)), pos);
        }
        let c = chars[pos];
        if c == ' ' {
            pos = pos + 1;
            return (Ok(BlankNode::from_value(acc)), pos);
        }
        acc.push(c);
        pos = pos + 1;
    }
}

/// Parses `"value"` (honoring `\"` escapes) from `chars` at `start`.
fn deserialize_literal_value(chars: &Vec<char>, start: usize) -> (r: (Result<String, String>, usize))
    requires
        start <= chars@.len(),
    ensures
        start <= r.1 <= chars@.len(),
        match sp_literal_value(chars@, start as nat) {
            PResult::Parsed(v, j) => r.0 matches Ok(value) && value@ == v && r.1 == j,
            PResult::Failed(f) => r.0 matches Err(m) && m@ == fault_text(f),
        },
{
    let mut pos = start;
    if pos >= chars.len() {
        return (Err(fault_message(Fault::UnexpectedEof)), pos);
    }
    let c0 = chars[pos];
    if c0 != '"' {
        return (Err(fault_message(Fault::UnexpectedChar(c0))), pos);
    }
    pos = pos + 1;
    let ghost tail_start = pos as nat;
    let mut acc = String::new();
    let mut escaped = false;
    loop
        invariant
            tail_start <= pos <= chars@.len(),
            start < pos,
            sp_literal_tail(chars@, tail_start, Seq::empty(), false) == sp_literal_tail(
                chars@,
                pos as nat,
                acc@,
                escaped,
            ),
            sp_literal_value(chars@, start as nat) == sp_literal_tail(
                chars@,
                tail_start,
                Seq::empty(),
                false,
            ),
        decreases chars@.len() - pos,
    {
        if pos >= chars.len() {
            return (Err(fault_message(Fault::UnexpectedEof)), pos);
        }
        let c = chars[pos];
        pos = pos + 1;
        if c == '\\' {
            escaped = !escaped;
        } else if c == '"' && !escaped {
            return (Ok(acc), pos);
        } else {
            acc.push(c);
            escaped = false;
        }
    }
}

/// Parses `^^<datatype>` from `chars` at `start`.
fn deserialize_datatype(chars: &Vec<char>, start: usize) -> (r: (Result<IRI, String>, usize))
    requires
        start <= chars@.len(),
    ensures
        start <= r.1 <= chars@.len(),
        match sp_datatype(chars@, start as nat) {
            PResult::Parsed(v, j) => r.0 matches Ok(iri) && iri@ == v && r.1 == j,
            PResult::Failed(f) => r.0 matches Err(m) && m@ == fault_text(f),
        },
{
    let mut pos = start;
    if pos >= chars.len() {
        return (Err(fault_message(Fault::UnexpectedEof)), pos);
    }
    let c0 = chars[pos];
    if c0 != '^' {
        return (Err(fault_message(Fault::UnexpectedChar(c0))), pos);
    }
    pos = pos + 1;
    if pos >= chars.len() {
        return (Err(fault_message(Fault::UnexpectedEof)), pos);
    }
    let c1 = chars[pos];
    if c1 != '^' {
        return (Err(fault_message(Fault::UnexpectedChar(c1))), pos);
    }
    pos = pos + 1;
    deserialize_iri(chars, pos)
}

/// Parses `@lang` from `chars` at `start`.
fn deserialize_language(chars: &Vec<char>, start: usize) -> (r: (Result<String, String>, usize))
    requires
        start <= chars@.len(),
    ensures
        start <= r.1 <= chars@.len(),
        match sp_language(chars@, start as nat) {
            PResult::Parsed(v, j) => r.0 matches Ok(lang) && lang@ == v && r.1 == j,
            PResult::Failed(f) => r.0 matches Err(m) && m@ == fault_text(f),
        },
{
    let mut pos = start;
    if pos >= chars.len() {
        return (Err(fault_message(Fault::UnexpectedEof)), pos);
    }
    let c0 = chars[pos];
    if c0 != '@' {
        return (Err(fault_message(Fault::UnexpectedChar(c0))), pos);
    }
    pos = pos + 1;
    let ghost tail_start = pos as nat;
    let mut acc = String::new();
    loop
        invariant
            tail_start <= pos <= chars@.len(),
            start < pos,
            sp_language_tail(chars@, tail_start, Seq::empty()) == sp_language_tail(
                chars@,
                pos as nat,
                acc@,
            ),
            sp_language(chars@, start as nat) == sp_language_tail(
                chars@,
                tail_start,
                Seq::empty(),
            ),
        decreases chars@.len() - pos,
    {
        if pos >= chars.len() {
            return (Ok(acc), pos);
        }
        let c = chars[pos];
        if c == ' ' || c == '.' {
            return (Ok(acc), pos);
        }
        acc.push(c);
        pos = pos + 1;
    }
}

/// Parses a full literal from `chars` at `start`.
fn deserialize_literal(chars: &Vec<char>, start: usize) -> (r: (Result<Literal, String>, usize))
    requires
        start <= chars@.len(),
    ensures
        start <= r.1 <= chars@.len(),
        match sp_literal(chars@, start as nat) {
            PResult::Parsed(v, j) => r.0 matches Ok(l) && l@ == v && r.1 == j,
            PResult::Failed(f) => r.0 matches Err(m) && m@ == fault_text(f),
        },
{
    let (value_result, pos) = deserialize_literal_value(chars, start);
    let value = match value_result {
        Ok(v) => v,
        Err(m) => {
            return (Err(m), pos);
        },
    };
    if pos < chars.len() && chars[pos] == '^' {
        let (datatype_result, end) = deserialize_datatype(chars, pos);
        match datatype_result {
            Ok(datatype) => (Ok(Literal::new(value, Option::Some(datatype), Option::None)), end),
            Err(m) => (Err(m), end),
        }
    } else if pos < chars.len() && chars[pos] == '@' {
        let (language_result, end) = deserialize_language(chars, pos);
        match language_result {
            Ok(language) => (Ok(Literal::new(value, Option::None, Option::Some(language))), end),
            Err(m) => (Err(m), end),
        }
    } else {
        (Ok(Literal::new(value, Option::None, Option::None)), pos)
    }
}

/// Parses a subject or context term from `chars` at `start`.
pub fn deserialize_identifier(chars: &Vec<char>, start: usize) -> (r: (
    Result<Identifier, String>,
    usize,
))
    requires
        start <= chars@.len(),
    ensures
        start <= r.1 <= chars@.len(),
        match sp_identifier(chars@, start as nat) {
            PResult::Parsed(v, j) => r.0 matches Ok(id) && id@ == v && r.1 == j,
            PResult::Failed(f) => r.0 matches Err(m) && m@ == fault_text(f),
        },
{
    if start >= chars.len() {
        return (Err(fault_message(Fault::UnexpectedEof)), start);
    }
    let c = chars[start];
    if c == '<' {
        let (result, end) = deserialize_iri(chars, start);
        match result {
            Ok(iri) => (Ok(Identifier::IRI(iri)), end),
            Err(m) => (Err(m), end),
        }
    } else if c == '_' {
        let (result, end) = deserialize_blank_node(chars, start);
        match result {
            Ok(b) => (Ok(Identifier::BlankNode(b)), end),
            Err(m) => (Err(m), end),
        }
    } else {
        (Err(fault_message(Fault::UnexpectedChar(c))), start)
    }
}

/// Parses an object term from `chars` at `start`.
pub fn deserialize_node(chars: &Vec<char>, start: usize) -> (r: (Result<Node, String>, usize))
    requires
        start <= chars@.len(),
    ensures
        start <= r.1 <= chars@.len(),
        match sp_node(chars@, start as nat) {
            PResult::Parsed(v, j) => r.0 matches Ok(n) && n@ == v && r.1 == j,
            PResult::Failed(f) => r.0 matches Err(m) && m@ == fault_text(f),
        },
{
    if start >= chars.len() {
        return (Err(fault_message(Fault::UnexpectedEof)), start);
    }
    let c = chars[start];
    if c == '<' {
        let (result, end) = deserialize_iri(chars, start);
        match result {
            Ok(iri) => (Ok(Node::IRI(iri)), end),
            Err(m) => (Err(m), end),
        }
    } else if c == '"' {
        let (result, end) = deserialize_literal(chars, start);
        match result {
            Ok(l) => (Ok(Node::Literal(l)), end),
            Err(m) => (Err(m), end),
        }
    } else if c == '_' {
        let (result, end) = deserialize_blank_node(chars, start);
        match result {
            Ok(b) => (Ok(Node::BlankNode(b)), end),
            Err(m) => (Err(m), end),
        }
    } else {
        (Err(fault_message(Fault::UnexpectedChar(c))), start)
    }
}

/// How much of one record the scanner has read so far: the fields of a quad,
/// filled strictly left to right. A second context term replaces the first.
pub enum ScanState {
    Start,
    HaveSubject(IdentifierV),
    HavePredicate(IdentifierV, Seq<char>),
    HaveObject(IdentifierV, Seq<char>, NodeV),
    HaveContext(IdentifierV, Seq<char>, NodeV, IdentifierV),
}

/// Outcome of scanning for one record: a quad with the scanner state after
/// it, a fault with the position to report, or the end of input.
pub enum StepResult {
    Quad { quad: QuadV, pos: nat, line: nat, column: nat },
    Error { fault: Fault, line: nat, column: nat },
    End,
}

/// Scans one record from position `i`. Blank lines before a record are
/// skipped; spaces separate fields; `.` closes a record once the object is
/// present. A line break or the end of input in the middle of a record is a
/// fault. The column count grows by one per scanning step, by one more for
/// each space, and resets on each line break, mirroring the cursor the
/// executable scanner keeps.
pub open spec fn sp_step(s: Seq<char>, i: nat, line: nat, column: nat, st: ScanState) -> StepResult
    decreases s.len() - i,
{
    let col1 = column + 1;
    if i >= s.len() {
        if st is Start {
            StepResult::End
        } else {
            StepResult::Error { fault: Fault::UnexpectedEof, line, column: col1 }
        }
    } else if s[i as int] == '\n' {
        if st is Start {
            sp_step(s, i + 1, line + 1, 0, st)
        } else {
            StepResult::Error { fault: Fault::UnexpectedChar('\n'), line, column: col1 }
        }
    } else if s[i as int] == ' ' {
        sp_step(s, i + 1, line, col1 + 1, st)
    } else if s[i as int] == '.' {
        match st {
            ScanState::HaveObject(sub, pred, obj) => StepResult::Quad {
                quad: QuadV { subject: sub, predicate: pred, object: obj, context: Option::None },
                pos: i + 1,
                line,
                column: col1,
            },
            ScanState::HaveContext(sub, pred, obj, cx) => StepResult::Quad {
                quad: QuadV {
                    subject: sub,
                    predicate: pred,
                    object: obj,
                    context: Option::Some(cx),
                },
                pos: i + 1,
                line,
                column: col1,
            },
            _ => StepResult::Error { fault: Fault::UnexpectedChar('.'), line, column: col1 },
        }
    } else {
        match st {
            ScanState::Start => match sp_identifier(s, i) {
                PResult::Failed(f) => StepResult::Error { fault: f, line, column: col1 },
                PResult::Parsed(id, j) => {
                    proof {
                        lemma_sp_identifier_bounds(s, i);
                    }
                    sp_step(s, j, line, col1, ScanState::HaveSubject(id))
                },
            },
            ScanState::HaveSubject(sub) => match sp_iri(s, i) {
                PResult::Failed(f) => StepResult::Error { fault: f, line, column: col1 },
                PResult::Parsed(p, j) => {
                    proof {
                        lemma_sp_iri_bounds(s, i);
                    }
                    sp_step(s, j, line, col1, ScanState::HavePredicate(sub, p))
                },
            },
            ScanState::HavePredicate(sub, pred) => match sp_node(s, i) {
                PResult::Failed(f) => StepResult::Error { fault: f, line, column: col1 },
                PResult::Parsed(obj, j) => {
                    proof {
                        lemma_sp_node_bounds(s, i);
                    }
                    sp_step(s, j, line, col1, ScanState::HaveObject(sub, pred, obj))
                },
            },
            ScanState::HaveObject(sub, pred, obj) => match sp_identifier(s, i) {
                PResult::Failed(f) => StepResult::Error { fault: f, line, column: col1 },
                PResult::Parsed(cx, j) => {
                    proof {
                        lemma_sp_identifier_bounds(s, i);
                    }
                    sp_step(s, j, line, col1, ScanState::HaveContext(sub, pred, obj, cx))
                },
            },
            ScanState::HaveContext(sub, pred, obj, _) => match sp_identifier(s, i) {
                PResult::Failed(f) => StepResult::Error { fault: f, line, column: col1 },
                PResult::Parsed(cx, j) => {
                    proof {
                        lemma_sp_identifier_bounds(s, i);
                    }
                    sp_step(s, j, line, col1, ScanState::HaveContext(sub, pred, obj, cx))
                },
            },
        }
    }
}

/// A produced quad always ends strictly after where scanning started and
/// within the input.
pub proof fn lemma_sp_step_bounds(s: Seq<char>, i: nat, line: nat, column: nat, st: ScanState)
    requires
        i <= s.len(),
    ensures
        sp_step(s, i, line, column, st) matches StepResult::Quad { pos, .. } ==> i < pos
            <= s.len(),
    decreases s.len() - i,
{
    if i < s.len() {
        let col1 = column + 1;
        if s[i as int] == '\n' {
            if st is Start {
                lemma_sp_step_bounds(s, i + 1, line + 1, 0, st);
            }
        } else if s[i as int] == ' ' {
            lemma_sp_step_bounds(s, i + 1, line, col1 + 1, st);
        } else if s[i as int] == '.' {
        } else {
            lemma_sp_identifier_bounds(s, i);
            lemma_sp_iri_bounds(s, i);
            lemma_sp_node_bounds(s, i);
            match st {
                ScanState::Start => {
                    if let PResult::Parsed(id, j) = sp_identifier(s, i) {
                        lemma_sp_step_bounds(s, j, line, col1, ScanState::HaveSubject(id));
                    }
                },
                ScanState::HaveSubject(sub) => {
                    if let PResult::Parsed(p, j) = sp_iri(s, i) {
                        lemma_sp_step_bounds(s, j, line, col1, ScanState::HavePredicate(sub, p));
                    }
                },
                ScanState::HavePredicate(sub, pred) => {
                    if let PResult::Parsed(obj, j) = sp_node(s, i) {
                        lemma_sp_step_bounds(
                            s,
                            j,
                            line,
                            col1,
                            ScanState::HaveObject(sub, pred, obj),
                        );
                    }
                },
                ScanState::HaveObject(sub, pred, obj) => {
                    if let PResult::Parsed(cx, j) = sp_identifier(s, i) {
                        lemma_sp_step_bounds(
                            s,
                            j,
                            line,
                            col1,
                            ScanState::HaveContext(sub, pred, obj, cx),
                        );
                    }
                },
                ScanState::HaveContext(sub, pred, obj, _) => {
                    if let PResult::Parsed(cx, j) = sp_identifier(s, i) {
                        lemma_sp_step_bounds(
                            s,
                            j,
                            line,
                            col1,
                            ScanState::HaveContext(sub, pred, obj, cx),
                        );
                    }
                },
            }
        }
    }
}

/// A parse error with the line and column at which the fault was noticed.
pub struct ParseErrorV {
    pub line: nat,
    pub column: nat,
    pub fault: Fault,
}

/// What parsing a whole input yields: the quads read before the first fault
/// (or all of them), and the first fault if there was one.
pub struct ParseOutcomeV {
    pub quads: Seq<QuadV>,
    pub error: Option<ParseErrorV>,
}

/// Parses records from position `i` until the end of input or the first
/// fault.
pub open spec fn sp_parse(s: Seq<char>, i: nat, line: nat, column: nat) -> ParseOutcomeV
    decreases s.len() - i,
{
    if i >= s.len() {
        ParseOutcomeV { quads: Seq::empty(), error: Option::None }
    } else {
        match sp_step(s, i, line, column, ScanState::Start) {
            StepResult::End => ParseOutcomeV { quads: Seq::empty(), error: Option::None },
            StepResult::Error { fault, line: l, column: c } => ParseOutcomeV {
                quads: Seq::empty(),
                error: Option::Some(ParseErrorV { line: l, column: c, fault }),
            },
            StepResult::Quad { quad, pos, line: l, column: c } => {
                proof {
                    lemma_sp_step_bounds(s, i, line, column, ScanState::Start);
                }
                let rest = sp_parse(s, pos, l, c);
                ParseOutcomeV { quads: seq![quad] + rest.quads, error: rest.error }
            },
        }
    }
}

/// A parse error as reported to callers: the position at which the fault was
/// noticed and its message (`Unexpected character <c>` or `Unexpected EOF`).
#[derive(Debug)]
pub struct ParseError {
    pub line: usize,
    pub column: usize,
    pub message: String,
}

impl ParseError {
    /// The error as one line of text: `At line L column C: message`.
    pub fn to_text(&self) -> (r: String)
        ensures
            r@ == "At line "@ + crate::text::dec_digits(self.line as nat) + " column "@
                + crate::text::dec_digits(self.column as nat) + ": "@ + self.message@,
    {
        let mut out = String::from_str("At line ");
        let line_text = crate::text::usize_to_string(self.line);
        out.append(line_text.as_str());
        out.append(" column ");
        let column_text = crate::text::usize_to_string(self.column);
        out.append(column_text.as_str());
        out.append(": ");
        out.append(self.message.as_str());
        out
    }
}

/// How much of one record the executable scanner has read so far.
enum Progress {
    Start,
    HaveSubject(Identifier),
    HavePredicate(Identifier, IRI),
    HaveObject(Identifier, IRI, Node),
    HaveContext(Identifier, IRI, Node, Identifier),
}

impl View for Progress {
    type V = ScanState;

    closed spec fn view(&self) -> ScanState {
        match self {
            Progress::Start => ScanState::Start,
            Progress::HaveSubject(s) => ScanState::HaveSubject(s@),
            Progress::HavePredicate(s, p) => ScanState::HavePredicate(s@, p@),
            Progress::HaveObject(s, p, o) => ScanState::HaveObject(s@, p@, o@),
            Progress::HaveContext(s, p, o, c) => ScanState::HaveContext(s@, p@, o@, c@),
        }
    }
}

/// Outcome of the executable scan for one record.
enum ScanOutcome {
    Quad { quad: Quad, pos: usize, line: usize, column: usize },
    Error { message: String, line: usize, column: usize },
    End,
}

/// A cursor that yields quads (or a first parse error) from N-Quads text,
/// one record at a time, tracking line and column for diagnostics. After the
/// first fault, or the end of input, it yields nothing more.
pub struct NQuadsDeserializer {
    chars: Vec<char>,
    pos: usize,
    line: usize,
    column: usize,
    done: bool,
}

impl NQuadsDeserializer {
    /// The full text being parsed.
    pub closed spec fn src_text(self) -> Seq<char> {
        self.chars@
    }

    /// The current position, as a character offset.
    pub closed spec fn cursor(self) -> nat {
        self.pos as nat
    }

    /// The current line count.
    pub closed spec fn line_count(self) -> nat {
        self.line as nat
    }

    /// The current column count.
    pub closed spec fn column_count(self) -> nat {
        self.column as nat
    }

    /// Whether the cursor has stopped, after the end of input or a fault.
    pub closed spec fn finished(self) -> bool {
        self.done
    }

    #[verifier::type_invariant]
    spec fn inv(self) -> bool {
        &&& self.pos <= self.chars@.len()
        &&& 3 * self.chars@.len() + 4 <= usize::MAX
        &&& (!self.done ==> self.column <= 3 * self.pos + 2)
        &&& (!self.done ==> self.line <= self.pos + 1)
    }


    /// Scans the next record from the current position.
    fn get_next(&self) -> (r: ScanOutcome)
        requires
            !self.done,
        ensures
            match sp_step(
                self.src_text(),
                self.cursor(),
                self.line_count(),
                self.column_count(),
                ScanState::Start,
            ) {
                StepResult::Quad { quad, pos, line, column } => r matches ScanOutcome::Quad {
                    quad: q,
                    pos: p,
                    line: l,
                    column: c,
                } && q@ == quad && p == pos && l == line && c == column && self.pos <= p
                    && p <= self.src_text().len() && c <= 3 * p + 2 && l <= p + 1,
                StepResult::Error { fault, line, column } => r matches ScanOutcome::Error {
                    message: m,
                    line: l,
                    column: c,
                } && m@ == fault_text(fault) && l == line && c == column,
                StepResult::End => r is End,
            },
    {
        proof {
            use_type_invariant(&*self);
        }
        let chars = &self.chars;
        let n = chars.len();
        let mut pos = self.pos;
        let mut line = self.line;
        let mut column = self.column;
        let mut state = Progress::Start;
        proof {
            assert(state@ == ScanState::Start);
        }
        loop
            invariant
                n == chars@.len(),
                n == self.src_text().len(),
                3 * n + 4 <= usize::MAX,
                self.pos <= pos,
                pos <= n,
                column <= 3 * pos + 2,
                line <= pos + 1,
                sp_step(
                    self.src_text(),
                    self.cursor(),
                    self.line_count(),
                    self.column_count(),
                    ScanState::Start,
                ) == sp_step(chars@, pos as nat, line as nat, column as nat, state@),
            decreases n - pos,
        {
            let ghost stv = state@;
            let col1 = column + 1;
            if pos >= n {
                match &state {
                    Progress::Start => {
                        proof {
                            assert(sp_step(chars@, pos as nat, line as nat, column as nat, stv)
                                is End);
                        }
                        return ScanOutcome::End;
                    },
                    _ => {
                        proof {
                            assert(sp_step(chars@, pos as nat, line as nat, column as nat, stv)
                                == (StepResult::Error {
                                fault: Fault::UnexpectedEof,
                                line: line as nat,
                                column: col1 as nat,
                            }));
                        }
                        return ScanOutcome::Error {
                            message: fault_message(Fault::UnexpectedEof),
                            line,
                            column: col1,
                        };
                    },
                }
            }
            let c = chars[pos];
            if c == '\n' {
                match &state {
                    Progress::Start => {
                        proof {
                            assert(sp_step(chars@, pos as nat, line as nat, column as nat, stv)
                                == sp_step(chars@, (pos + 1) as nat, (line + 1) as nat, 0, stv));
                        }
                        line = line + 1;
                        column = 0;
                        pos = pos + 1;
                    },
                    _ => {
                        proof {
                            assert(sp_step(chars@, pos as nat, line as nat, column as nat, stv)
                                == (StepResult::Error {
                                fault: Fault::UnexpectedChar('\n'),
                                line: line as nat,
                                column: col1 as nat,
                            }));
                        }
                        return ScanOutcome::Error {
                            message: fault_message(Fault::UnexpectedChar('\n')),
                            line,
                            column: col1,
                        };
                    },
                }
            } else if c == ' ' {
                proof {
                    assert(sp_step(chars@, pos as nat, line as nat, column as nat, stv) == sp_step(
                        chars@,
                        (pos + 1) as nat,
                        line as nat,
                        (col1 + 1) as nat,
                        stv,
                    ));
                }
                column = col1 + 1;
                pos = pos + 1;
            } else if c == '.' {
                match state {
                    Progress::HaveObject(sub, pred, obj) => {
                        proof {
                            assert(sp_step(chars@, pos as nat, line as nat, column as nat, stv)
                                == (StepResult::Quad {
                                quad: QuadV {
                                    subject: sub@,
                                    predicate: pred@,
                                    object: obj@,
                                    context: Option::None,
                                },
                                pos: (pos + 1) as nat,
                                line: line as nat,
                                column: col1 as nat,
                            }));
                        }
                        pos = pos + 1;
                        return ScanOutcome::Quad {
                            quad: Quad::new(sub, pred, obj, Option::None),
                            pos,
                            line,
                            column: col1,
                        };
                    },
                    Progress::HaveContext(sub, pred, obj, cx) => {
                        proof {
                            assert(sp_step(chars@, pos as nat, line as nat, column as nat, stv)
                                == (StepResult::Quad {
                                quad: QuadV {
                                    subject: sub@,
                                    predicate: pred@,
                                    object: obj@,
                                    context: Option::Some(cx@),
                                },
                                pos: (pos + 1) as nat,
                                line: line as nat,
                                column: col1 as nat,
                            }));
                        }
                        pos = pos + 1;
                        return ScanOutcome::Quad {
                            quad: Quad::new(sub, pred, obj, Option::Some(cx)),
                            pos,
                            line,
                            column: col1,
                        };
                    },
                    _ => {
                        proof {
                            assert(sp_step(chars@, pos as nat, line as nat, column as nat, stv)
                                == (StepResult::Error {
                                fault: Fault::UnexpectedChar('.'),
                                line: line as nat,
                                column: col1 as nat,
                            }));
                        }
                        return ScanOutcome::Error {
                            message: fault_message(Fault::UnexpectedChar('.')),
                            line,
                            column: col1,
                        };
                    },
                }
            } else {
                match state {
                    Progress::Start => {
                        let (res, j) = deserialize_identifier(chars, pos);
                        match res {
                            Ok(id) => {
                                let ghost idv = id@;
                                proof {
                                    lemma_sp_identifier_bounds(chars@, pos as nat);
                                    assert(sp_step(
                                        chars@,
                                        pos as nat,
                                        line as nat,
                                        column as nat,
                                        stv,
                                    ) == sp_step(
                                        chars@,
                                        j as nat,
                                        line as nat,
                                        col1 as nat,
                                        ScanState::HaveSubject(idv),
                                    ));
                                }
                                state = Progress::HaveSubject(id);
                                column = col1;
                                pos = j;
                                proof {
                                    assert(state@ == ScanState::HaveSubject(idv));
                                }
                            },
                            Err(m) => {
                                proof {
                                    assert(sp_step(
                                        chars@,
                                        pos as nat,
                                        line as nat,
                                        column as nat,
                                        stv,
                                    ) is Error);
                                }
                                return ScanOutcome::Error { message: m, line, column: col1 };
                            },
                        }
                    },
                    Progress::HaveSubject(sub) => {
                        let ghost subv = sub@;
                        let (res, j) = deserialize_iri(chars, pos);
                        match res {
                            Ok(p) => {
                                let ghost pv = p@;
                                proof {
                                    lemma_sp_iri_bounds(chars@, pos as nat);
                                    assert(sp_step(
                                        chars@,
                                        pos as nat,
                                        line as nat,
                                        column as nat,
                                        stv,
                                    ) == sp_step(
                                        chars@,
                                        j as nat,
                                        line as nat,
                                        col1 as nat,
                                        ScanState::HavePredicate(subv, pv),
                                    ));
                                }
                                state = Progress::HavePredicate(sub, p);
                                column = col1;
                                pos = j;
                                proof {
                                    assert(state@ == ScanState::HavePredicate(subv, pv));
                                }
                            },
                            Err(m) => {
                                proof {
                                    assert(sp_step(
                                        chars@,
                                        pos as nat,
                                        line as nat,
                                        column as nat,
                                        stv,
                                    ) is Error);
                                }
                                return ScanOutcome::Error { message: m, line, column: col1 };
                            },
                        }
                    },
                    Progress::HavePredicate(sub, pred) => {
                        let ghost subv = sub@;
                        let ghost predv = pred@;
                        let (res, j) = deserialize_node(chars, pos);
                        match res {
                            Ok(obj) => {
                                let ghost objv = obj@;
                                proof {
                                    lemma_sp_node_bounds(chars@, pos as nat);
                                    assert(sp_step(
                                        chars@,
                                        pos as nat,
                                        line as nat,
                                        column as nat,
                                        stv,
                                    ) == sp_step(
                                        chars@,
                                        j as nat,
                                        line as nat,
                                        col1 as nat,
                                        ScanState::HaveObject(subv, predv, objv),
                                    ));
                                }
                                state = Progress::HaveObject(sub, pred, obj);
                                column = col1;
                                pos = j;
                                proof {
                                    assert(state@ == ScanState::HaveObject(subv, predv, objv));
                                }
                            },
                            Err(m) => {
                                proof {
                                    assert(sp_step(
                                        chars@,
                                        pos as nat,
                                        line as nat,
                                        column as nat,
                                        stv,
                                    ) is Error);
                                }
                                return ScanOutcome::Error { message: m, line, column: col1 };
                            },
                        }
                    },
                    Progress::HaveObject(sub, pred, obj) => {
                        let ghost subv = sub@;
                        let ghost predv = pred@;
                        let ghost objv = obj@;
                        let (res, j) = deserialize_identifier(chars, pos);
                        match res {
                            Ok(cx) => {
                                let ghost cxv = cx@;
                                proof {
                                    lemma_sp_identifier_bounds(chars@, pos as nat);
                                    assert(sp_step(
                                        chars@,
                                        pos as nat,
                                        line as nat,
                                        column as nat,
                                        stv,
                                    ) == sp_step(
                                        chars@,
                                        j as nat,
                                        line as nat,
                                        col1 as nat,
                                        ScanState::HaveContext(subv, predv, objv, cxv),
                                    ));
                                }
                                state = Progress::HaveContext(sub, pred, obj, cx);
                                column = col1;
                                pos = j;
                                proof {
                                    assert(state@ == ScanState::HaveContext(
                                        subv,
                                        predv,
                                        objv,
                                        cxv,
                                    ));
                                }
                            },
                            Err(m) => {
                                proof {
                                    assert(sp_step(
                                        chars@,
                                        pos as nat,
                                        line as nat,
                                        column as nat,
                                        stv,
                                    ) is Error);
                                }
                                return ScanOutcome::Error { message: m, line, column: col1 };
                            },
                        }
                    },
                    Progress::HaveContext(sub, pred, obj, _) => {
                        let ghost subv = sub@;
                        let ghost predv = pred@;
                        let ghost objv = obj@;
                        let (res, j) = deserialize_identifier(chars, pos);
                        match res {
                            Ok(cx) => {
                                let ghost cxv = cx@;
                                proof {
                                    lemma_sp_identifier_bounds(chars@, pos as nat);
                                    assert(sp_step(
                                        chars@,
                                        pos as nat,
                                        line as nat,
                                        column as nat,
                                        stv,
                                    ) == sp_step(
                                        chars@,
                                        j as nat,
                                        line as nat,
                                        col1 as nat,
                                        ScanState::HaveContext(subv, predv, objv, cxv),
                                    ));
                                }
                                state = Progress::HaveContext(sub, pred, obj, cx);
                                column = col1;
                                pos = j;
                                proof {
                                    assert(state@ == ScanState::HaveContext(
                                        subv,
                                        predv,
                                        objv,
                                        cxv,
                                    ));
                                }
                            },
                            Err(m) => {
                                proof {
                                    assert(sp_step(
                                        chars@,
                                        pos as nat,
                                        line as nat,
                                        column as nat,
                                        stv,
                                    ) is Error);
                                }
                                return ScanOutcome::Error { message: m, line, column: col1 };
                            },
                        }
                    },
                }
            }
        }
    }

    /// Yields the next quad, the first parse error, or nothing once the
    /// input is exhausted or a fault was already reported.
    pub fn next(&mut self) -> (r: Option<Result<Quad, ParseError>>)
        ensures
            final(self).src_text() == old(self).src_text(),
            final(self).cursor() <= final(self).src_text().len(),
            old(self).finished() ==> r is None && *final(self) == *old(self),
            !old(self).finished() ==> match sp_step(
                old(self).src_text(),
                old(self).cursor(),
                old(self).line_count(),
                old(self).column_count(),
                ScanState::Start,
            ) {
                StepResult::Quad { quad, pos, line, column } => r matches Some(Ok(q)) && q@ == quad
                    && !final(self).finished() && final(self).cursor() == pos
                    && final(self).line_count() == line && final(self).column_count() == column,
                StepResult::Error { fault, line, column } => r matches Some(Err(e)) && e.line
                    == line && e.column == column && e.message@ == fault_text(fault)
                    && final(self).finished(),
                StepResult::End => r is None && final(self).finished(),
            },
    {
        proof {
            use_type_invariant(&*self);
        }
        if self.done {
            return None;
        }
        let outcome = self.get_next();
        match outcome {
            ScanOutcome::Quad { quad, pos, line, column } => {
                self.pos = pos;
                self.line = line;
                self.column = column;
                Some(Ok(quad))
            },
            ScanOutcome::Error { message, line, column } => {
                self.done = true;
                self.line = line;
                self.column = column;
                Some(Err(ParseError { line, column, message }))
            },
            ScanOutcome::End => {
                self.done = true;
                None
            },
        }
    }
}

/// A cursor over the given text, positioned at its start (line 1, column 0).
/// The bound on the text length leaves the column counter room in a machine
/// word; any text that fits in memory satisfies it.
pub fn deserialize(nquads: &str) -> (r: NQuadsDeserializer)
    requires
        3 * nquads@.len() + 4 <= usize::MAX,
    ensures
        r.src_text() == nquads@,
        r.cursor() == 0,
        r.line_count() == 1,
        r.column_count() == 0,
        !r.finished(),
{
    NQuadsDeserializer {
        chars: crate::text::str_to_char_vec(nquads),
        pos: 0,
        line: 1,
        column: 0,
        done: false,
    }
}

} // verus!
