//! Round trip between the serializer and the parser: the text written for
//! any sequence of well-formed quads parses back to exactly those quads.
//!
//! Well-formedness pins down the values the text format can carry without
//! loss: an IRI must not contain `>`, a blank-node label must not contain a
//! space, a literal value must not contain a backslash (the serializer
//! escapes only quotes), a language tag must not contain a space or a dot
//! and belongs only to a plain string literal (the tagged text form carries
//! no datatype).

use vstd::prelude::*;
use crate::namespace::xsd_string;
use crate::nquads_deserialize::{
    sp_blank_label,
    sp_blank_node,
    sp_identifier,
    sp_iri,
    sp_iri_tail,
    sp_language_tail,
    sp_literal,
    sp_literal_tail,
    sp_literal_value,
    sp_node,
    sp_parse,
    sp_step,
    ParseOutcomeV,
    PResult,
    ScanState,
    StepResult,
};
use crate::nquads_serialize::{
    escape_value,
    ser_blank_node,
    ser_identifier,
    ser_iri,
    ser_lines,
    ser_literal,
    ser_node,
    ser_quad,
};
use crate::quad::QuadV;
use crate::term::{IdentifierV, LiteralV, NodeV};

verus! {

/// No occurrence of `c` anywhere in `v`.
pub open spec fn no_char(v: Seq<char>, c: char) -> bool {
    forall|k: int| 0 <= k < v.len() ==> v[k] != c
}

/// An IRI value whose text form reads back intact: it contains no `>`.
pub open spec fn wf_iri_value(v: Seq<char>) -> bool {
    no_char(v, '>')
}

/// A blank-node label whose text form reads back intact: it contains no
/// space.
pub open spec fn wf_blank_label(v: Seq<char>) -> bool {
    no_char(v, ' ')
}

/// An identifier whose text form reads back intact.
pub open spec fn wf_identifier(id: IdentifierV) -> bool {
    match id {
        IdentifierV::IRI(v) => wf_iri_value(v),
        IdentifierV::BlankNode(v) => wf_blank_label(v),
    }
}

/// A literal whose text form reads back intact.
pub open spec fn wf_literal(l: LiteralV) -> bool {
    &&& no_char(l.value, '\\')
    &&& match l.language {
        Option::Some(lang) => no_char(lang, ' ') && no_char(lang, '.') && l.datatype
            == xsd_string(),
        Option::None => wf_iri_value(l.datatype),
    }
}

/// An object term whose text form reads back intact.
pub open spec fn wf_node(n: NodeV) -> bool {
    match n {
        NodeV::IRI(v) => wf_iri_value(v),
        NodeV::BlankNode(v) => wf_blank_label(v),
        NodeV::Literal(l) => wf_literal(l),
    }
}

/// A quad whose text form reads back intact.
pub open spec fn wf_quad(q: QuadV) -> bool {
    &&& wf_identifier(q.subject)
    &&& wf_iri_value(q.predicate)
    &&& wf_node(q.object)
    &&& match q.context {
        Option::Some(c) => wf_identifier(c),
        Option::None => true,
    }
}

/// The text `t` lies in `s` starting at position `i`.
pub open spec fn text_at(s: Seq<char>, i: nat, t: Seq<char>) -> bool {
    &&& i + t.len() <= s.len()
    &&& forall|k: int| 0 <= k < t.len() ==> s[i + k] == #[trigger] t[k]
}

proof fn lemma_text_at_split(s: Seq<char>, i: nat, a: Seq<char>, b: Seq<char>)
    requires
        text_at(s, i, a + b),
    ensures
        text_at(s, i, a),
        text_at(s, i + a.len(), b),
{
    assert forall|k: int| 0 <= k < a.len() implies s[i + k] == #[trigger] a[k] by {
        assert((a + b)[k] == a[k]);
    }
    assert forall|k: int| 0 <= k < b.len() implies s[i + a.len() + k] == #[trigger] b[k] by {
        assert((a + b)[a.len() + k] == b[k]);
    }
}

proof fn lemma_text_at_join(s: Seq<char>, i: nat, a: Seq<char>, b: Seq<char>)
    requires
        text_at(s, i, a),
        text_at(s, i + a.len(), b),
    ensures
        text_at(s, i, a + b),
{
    assert forall|k: int| 0 <= k < (a + b).len() implies s[i + k] == #[trigger] (a + b)[k] by {
        if k < a.len() {
            assert(a[k] == (a + b)[k]);
        } else {
            assert(b[k - a.len()] == (a + b)[k]);
            assert(s[i + a.len() + (k - a.len())] == b[k - a.len()]);
        }
    }
}

proof fn lemma_text_at_singleton(s: Seq<char>, i: nat, c: char)
    requires
        i < s.len(),
        s[i as int] == c,
    ensures
        text_at(s, i, seq![c]),
{
    assert forall|k: int| 0 <= k < 1 implies s[i + k] == #[trigger] seq![c][k] by {
        assert(seq![c][0] == c);
    }
}

proof fn lemma_text_at_drop_first(s: Seq<char>, i: nat, v: Seq<char>)
    requires
        text_at(s, i, v),
        v.len() > 0,
    ensures
        s[i as int] == v[0],
        text_at(s, i + 1, v.drop_first()),
{
    assert(s[i as int] == v[0]);
    assert forall|k: int| 0 <= k < v.drop_first().len() implies s[i + 1 + k]
        == #[trigger] v.drop_first()[k] by {
        assert(v.drop_first()[k] == v[k + 1]);
        assert(s[i + (k + 1)] == v[k + 1]);
    }
}

proof fn lemma_scan_iri_tail(s: Seq<char>, i: nat, acc: Seq<char>, v: Seq<char>)
    requires
        wf_iri_value(v),
        text_at(s, i, v + seq!['>']),
    ensures
        sp_iri_tail(s, i, acc) == PResult::<Seq<char>>::Parsed(acc + v, i + v.len() + 1),
    decreases v.len(),
{
    let t = v + seq!['>'];
    if v.len() == 0 {
        assert(s[i as int] == t[0]);
        assert(t[0] == '>');
        assert(acc + v =~= acc);
    } else {
        lemma_text_at_drop_first(s, i, t);
        assert(t[0] == v[0]);
        assert(s[i as int] == v[0]);
        let v1 = v.drop_first();
        assert(t.drop_first() =~= v1 + seq!['>']);
        lemma_scan_iri_tail(s, i + 1, acc.push(v[0]), v1);
        assert(acc.push(v[0]) + v1 =~= acc + v);
    }
}

proof fn lemma_scan_iri(s: Seq<char>, i: nat, v: Seq<char>)
    requires
        wf_iri_value(v),
        text_at(s, i, ser_iri(v)),
    ensures
        sp_iri(s, i) == PResult::<Seq<char>>::Parsed(v, i + v.len() + 2),
{
    assert(ser_iri(v) =~= seq!['<'] + (v + seq!['>']));
    lemma_text_at_split(s, i, seq!['<'], v + seq!['>']);
    assert(s[i as int] == seq!['<'][0]);
    lemma_scan_iri_tail(s, i + 1, Seq::empty(), v);
    assert(Seq::<char>::empty() + v =~= v);
}

proof fn lemma_scan_blank_label(s: Seq<char>, i: nat, acc: Seq<char>, v: Seq<char>)
    requires
        wf_blank_label(v),
        text_at(s, i, v + seq![' ']),
    ensures
        sp_blank_label(s, i, acc) == PResult::<Seq<char>>::Parsed(acc + v, i + v.len() + 1),
    decreases v.len(),
{
    let t = v + seq![' '];
    if v.len() == 0 {
        assert(s[i as int] == t[0]);
        assert(t[0] == ' ');
        assert(acc + v =~= acc);
    } else {
        lemma_text_at_drop_first(s, i, t);
        assert(t[0] == v[0]);
        let v1 = v.drop_first();
        assert(t.drop_first() =~= v1 + seq![' ']);
        lemma_scan_blank_label(s, i + 1, acc.push(v[0]), v1);
        assert(acc.push(v[0]) + v1 =~= acc + v);
    }
}

proof fn lemma_scan_blank_node(s: Seq<char>, i: nat, v: Seq<char>)
    requires
        wf_blank_label(v),
        text_at(s, i, ser_blank_node(v) + seq![' ']),
    ensures
        sp_blank_node(s, i) == PResult::<Seq<char>>::Parsed(v, i + v.len() + 3),
{
    assert(ser_blank_node(v) + seq![' '] =~= seq!['_'] + (seq![':'] + (v + seq![' '])));
    lemma_text_at_split(s, i, seq!['_'], seq![':'] + (v + seq![' ']));
    lemma_text_at_split(s, i + 1, seq![':'], v + seq![' ']);
    assert(s[i as int] == seq!['_'][0]);
    assert(s[(i + 1) as int] == seq![':'][0]);
    lemma_scan_blank_label(s, i + 2, Seq::empty(), v);
    assert(Seq::<char>::empty() + v =~= v);
}

/// Position after an identifier has been scanned from `i`: a blank node also
/// consumes its separating space.
pub open spec fn identifier_scan_end(id: IdentifierV, i: nat) -> nat {
    match id {
        IdentifierV::IRI(v) => i + v.len() + 2,
        IdentifierV::BlankNode(v) => i + v.len() + 3,
    }
}

/// Position after an object term has been scanned from `i`.
pub open spec fn node_scan_end(n: NodeV, i: nat) -> nat {
    match n {
        NodeV::IRI(v) => i + v.len() + 2,
        NodeV::BlankNode(v) => i + v.len() + 3,
        NodeV::Literal(l) => i + ser_literal(l).len(),
    }
}

proof fn lemma_scan_identifier(s: Seq<char>, i: nat, id: IdentifierV)
    requires
        wf_identifier(id),
        text_at(s, i, ser_identifier(id) + seq![' ']),
    ensures
        sp_identifier(s, i) == PResult::<IdentifierV>::Parsed(id, identifier_scan_end(id, i)),
        i < identifier_scan_end(id, i) <= i + ser_identifier(id).len() + 1,
{
    match id {
        IdentifierV::IRI(v) => {
            lemma_text_at_split(s, i, ser_identifier(id), seq![' ']);
            assert(s[i as int] == ser_iri(v)[0]);
            assert(ser_iri(v)[0] == '<');
            lemma_scan_iri(s, i, v);
        },
        IdentifierV::BlankNode(v) => {
            assert(ser_identifier(id) + seq![' '] =~= ser_blank_node(v) + seq![' ']);
            assert(s[i as int] == (ser_identifier(id) + seq![' '])[0]);
            assert((ser_blank_node(v) + seq![' '])[0] == ser_blank_node(v)[0]);
            assert(ser_blank_node(v)[0] == '_');
            lemma_scan_blank_node(s, i, v);
        },
    }
}

proof fn lemma_escape_value_first(v: Seq<char>)
    requires
        v.len() > 0,
    ensures
        escape_value(v) == (if v[0] == '"' {
            seq!['\\', '"']
        } else {
            seq![v[0]]
        }) + escape_value(v.drop_first()),
    decreases v.len(),
{
    let head: Seq<char> = if v[0] == '"' {
        seq!['\\', '"']
    } else {
        seq![v[0]]
    };
    if v.len() == 1 {
        assert(v.drop_last() =~= Seq::<char>::empty());
        assert(v.drop_first() =~= Seq::<char>::empty());
        assert(v.last() == v[0]);
        assert(escape_value(v) =~= head + escape_value(v.drop_first()));
    } else {
        let u = v.drop_last();
        lemma_escape_value_first(u);
        let tail: Seq<char> = if v.last() == '"' {
            seq!['\\', '"']
        } else {
            seq![v.last()]
        };
        assert(u[0] == v[0]);
        assert(escape_value(v) == escape_value(u) + tail);
        assert(v.drop_first().drop_last() =~= u.drop_first());
        assert(v.drop_first().len() > 0);
        assert(v.drop_first().last() == v.last());
        assert(escape_value(v.drop_first()) == escape_value(u.drop_first()) + tail);
        assert((head + escape_value(u.drop_first())) + tail =~= head + (escape_value(
            u.drop_first(),
        ) + tail));
        assert(escape_value(v) =~= head + escape_value(v.drop_first()));
    }
}

proof fn lemma_scan_literal_tail(s: Seq<char>, i: nat, acc: Seq<char>, v: Seq<char>)
    requires
        no_char(v, '\\'),
        text_at(s, i, escape_value(v) + seq!['"']),
    ensures
        sp_literal_tail(s, i, acc, false) == PResult::<Seq<char>>::Parsed(
            acc + v,
            i + escape_value(v).len() + 1,
        ),
    decreases v.len(),
{
    let t = escape_value(v) + seq!['"'];
    if v.len() == 0 {
        assert(escape_value(v).len() == 0);
        assert(s[i as int] == t[0]);
        assert(t[0] == '"');
        assert(acc + v =~= acc);
    } else {
        lemma_escape_value_first(v);
        let v1 = v.drop_first();
        let e1 = escape_value(v1);
        if v[0] == '"' {
            assert(escape_value(v) == seq!['\\', '"'] + e1);
            assert(t =~= seq!['\\'] + (seq!['"'] + (e1 + seq!['"'])));
            lemma_text_at_split(s, i, seq!['\\'], seq!['"'] + (e1 + seq!['"']));
            lemma_text_at_split(s, i + 1, seq!['"'], e1 + seq!['"']);
            assert(s[i as int] == seq!['\\'][0]);
            assert(s[(i + 1) as int] == seq!['"'][0]);
            lemma_scan_literal_tail(s, i + 2, acc.push('"'), v1);
            assert(sp_literal_tail(s, i, acc, false) == sp_literal_tail(s, i + 1, acc, true));
            assert(sp_literal_tail(s, i + 1, acc, true) == sp_literal_tail(
                s,
                i + 2,
                acc.push('"'),
                false,
            ));
            assert(acc.push('"') + v1 =~= acc + v);
        } else {
            assert(escape_value(v) == seq![v[0]] + e1);
            assert(t =~= seq![v[0]] + (e1 + seq!['"']));
            lemma_text_at_split(s, i, seq![v[0]], e1 + seq!['"']);
            assert(s[i as int] == seq![v[0]][0]);
            assert(v[0] != '\\');
            lemma_scan_literal_tail(s, i + 1, acc.push(v[0]), v1);
            assert(acc.push(v[0]) + v1 =~= acc + v);
        }
    }
}

proof fn lemma_scan_literal_value(s: Seq<char>, i: nat, v: Seq<char>)
    requires
        no_char(v, '\\'),
        text_at(s, i, seq!['"'] + escape_value(v) + seq!['"']),
    ensures
        sp_literal_value(s, i) == PResult::<Seq<char>>::Parsed(v, i + escape_value(v).len() + 2),
{
    assert(seq!['"'] + escape_value(v) + seq!['"'] =~= seq!['"'] + (escape_value(v) + seq!['"']));
    lemma_text_at_split(s, i, seq!['"'], escape_value(v) + seq!['"']);
    assert(s[i as int] == seq!['"'][0]);
    lemma_scan_literal_tail(s, i + 1, Seq::empty(), v);
    assert(Seq::<char>::empty() + v =~= v);
}

proof fn lemma_scan_language_tail(s: Seq<char>, i: nat, acc: Seq<char>, v: Seq<char>)
    requires
        no_char(v, ' '),
        no_char(v, '.'),
        text_at(s, i, v + seq![' ']),
    ensures
        sp_language_tail(s, i, acc) == PResult::<Seq<char>>::Parsed(acc + v, i + v.len()),
    decreases v.len(),
{
    let t = v + seq![' '];
    if v.len() == 0 {
        assert(s[i as int] == t[0]);
        assert(t[0] == ' ');
        assert(acc + v =~= acc);
    } else {
        lemma_text_at_drop_first(s, i, t);
        assert(t[0] == v[0]);
        let v1 = v.drop_first();
        assert(t.drop_first() =~= v1 + seq![' ']);
        lemma_scan_language_tail(s, i + 1, acc.push(v[0]), v1);
        assert(acc.push(v[0]) + v1 =~= acc + v);
    }
}

proof fn lemma_scan_literal(s: Seq<char>, i: nat, l: LiteralV)
    requires
        wf_literal(l),
        text_at(s, i, ser_literal(l) + seq![' ']),
    ensures
        sp_literal(s, i) == PResult::<LiteralV>::Parsed(l, i + ser_literal(l).len()),
{
    let quoted = seq!['"'] + escape_value(l.value) + seq!['"'];
    let j = i + escape_value(l.value).len() + 2;
    match l.language {
        Option::Some(lang) => {
            assert(ser_literal(l) == quoted + seq!['@'] + lang);
            assert(ser_literal(l) + seq![' '] =~= quoted + (seq!['@'] + (lang + seq![' '])));
            lemma_text_at_split(s, i, quoted, seq!['@'] + (lang + seq![' ']));
            lemma_text_at_split(s, j, seq!['@'], lang + seq![' ']);
            lemma_scan_literal_value(s, i, l.value);
            assert(s[j as int] == seq!['@'][0]);
            assert(s[j as int] != '^');
            lemma_scan_language_tail(s, j + 1, Seq::empty(), lang);
            assert(Seq::<char>::empty() + lang =~= lang);
            assert(l == (LiteralV {
                value: l.value,
                datatype: xsd_string(),
                language: Option::Some(lang),
            }));
        },
        Option::None => {
            if l.datatype != xsd_string() {
                assert(ser_literal(l) == quoted + seq!['^', '^'] + ser_iri(l.datatype));
                assert(ser_literal(l) + seq![' '] =~= quoted + (seq!['^'] + (seq!['^'] + (ser_iri(
                    l.datatype,
                ) + seq![' ']))));
                lemma_text_at_split(
                    s,
                    i,
                    quoted,
                    seq!['^'] + (seq!['^'] + (ser_iri(l.datatype) + seq![' '])),
                );
                lemma_text_at_split(s, j, seq!['^'], seq!['^'] + (ser_iri(l.datatype) + seq![' ']));
                lemma_text_at_split(s, j + 1, seq!['^'], ser_iri(l.datatype) + seq![' ']);
                lemma_text_at_split(s, j + 2, ser_iri(l.datatype), seq![' ']);
                lemma_scan_literal_value(s, i, l.value);
                assert(s[j as int] == seq!['^'][0]);
                assert(s[(j + 1) as int] == seq!['^'][0]);
                lemma_scan_iri(s, j + 2, l.datatype);
                assert(l == (LiteralV {
                    value: l.value,
                    datatype: l.datatype,
                    language: Option::None,
                }));
            } else {
                assert(ser_literal(l) == quoted);
                lemma_text_at_split(s, i, quoted, seq![' ']);
                lemma_scan_literal_value(s, i, l.value);
                assert(s[j as int] == seq![' '][0]);
                assert(s[j as int] != '^' && s[j as int] != '@');
                assert(l == (LiteralV {
                    value: l.value,
                    datatype: xsd_string(),
                    language: Option::None,
                }));
            }
        },
    }
}

proof fn lemma_scan_node(s: Seq<char>, i: nat, n: NodeV)
    requires
        wf_node(n),
        text_at(s, i, ser_node(n) + seq![' ']),
    ensures
        sp_node(s, i) == PResult::<NodeV>::Parsed(n, node_scan_end(n, i)),
        i < node_scan_end(n, i) <= i + ser_node(n).len() + 1,
{
    match n {
        NodeV::IRI(v) => {
            lemma_text_at_split(s, i, ser_node(n), seq![' ']);
            assert(s[i as int] == ser_iri(v)[0]);
            assert(ser_iri(v)[0] == '<');
            lemma_scan_iri(s, i, v);
        },
        NodeV::BlankNode(v) => {
            assert(ser_node(n) + seq![' '] =~= ser_blank_node(v) + seq![' ']);
            assert(s[i as int] == (ser_node(n) + seq![' '])[0]);
            assert((ser_blank_node(v) + seq![' '])[0] == ser_blank_node(v)[0]);
            assert(ser_blank_node(v)[0] == '_');
            assert(s[i as int] != '<' && s[i as int] != '"');
            lemma_scan_blank_node(s, i, v);
        },
        NodeV::Literal(l) => {
            assert(ser_node(n) + seq![' '] =~= ser_literal(l) + seq![' ']);
            assert(s[i as int] == (ser_node(n) + seq![' '])[0]);
            assert((ser_literal(l) + seq![' '])[0] == ser_literal(l)[0]);
            assert(ser_literal(l)[0] == '"') by {
                let quoted = seq!['"'] + escape_value(l.value) + seq!['"'];
                assert(quoted[0] == '"');
                match l.language {
                    Option::Some(lang) => {
                        assert(ser_literal(l)[0] == quoted[0]);
                    },
                    Option::None => {
                        if l.datatype != xsd_string() {
                            assert(ser_literal(l)[0] == quoted[0]);
                        }
                    },
                }
            }
            assert(s[i as int] != '<');
            lemma_scan_literal(s, i, l);
        },
    }
}

/// The part of a serialized quad line after the subject and its separating
/// space.
spec fn tail_after_subject(q: QuadV) -> Seq<char> {
    ser_iri(q.predicate) + seq![' '] + tail_after_predicate(q)
}

/// The part of a serialized quad line after the predicate and its separating
/// space.
spec fn tail_after_predicate(q: QuadV) -> Seq<char> {
    ser_node(q.object) + tail_after_object(q)
}

/// The part of a serialized quad line after the object: the optional context
/// clause and the closing ` .`.
spec fn tail_after_object(q: QuadV) -> Seq<char> {
    (match q.context {
        Option::Some(c) => seq![' '] + ser_identifier(c),
        Option::None => Seq::empty(),
    }) + seq![' ', '.']
}

/// The closing part of a quad line once the object's separating space has
/// been passed: the optional context term with its space, then the dot.
spec fn closing_text(q: QuadV) -> Seq<char> {
    (match q.context {
        Option::Some(c) => ser_identifier(c) + seq![' '],
        Option::None => Seq::empty(),
    }) + seq!['.']
}

proof fn lemma_step_at_closing(s: Seq<char>, p: nat, line: nat, column: nat, q: QuadV)
    requires
        wf_quad(q),
        text_at(s, p, closing_text(q)),
    ensures
        match sp_step(
            s,
            p,
            line,
            column,
            ScanState::HaveObject(q.subject, q.predicate, q.object),
        ) {
            StepResult::Quad { quad, pos, line: l2, column: _ } => quad == q && pos == p
                + closing_text(q).len() && l2 == line,
            _ => false,
        },
{
    let t = closing_text(q);
    let st = ScanState::HaveObject(q.subject, q.predicate, q.object);
    match q.context {
        Option::None => {
            assert(t =~= seq!['.']);
            assert(s[p as int] == t[0]);
            assert(t[0] == '.');
            assert(sp_step(s, p, line, column, st) == (StepResult::Quad {
                quad: QuadV {
                    subject: q.subject,
                    predicate: q.predicate,
                    object: q.object,
                    context: Option::None,
                },
                pos: p + 1,
                line,
                column: column + 1,
            }));
            assert(q == (QuadV {
                subject: q.subject,
                predicate: q.predicate,
                object: q.object,
                context: Option::None,
            }));
        },
        Option::Some(cx) => {
            let e = ser_identifier(cx).len();
            let stc = ScanState::HaveContext(q.subject, q.predicate, q.object, cx);
            assert(t =~= (ser_identifier(cx) + seq![' ']) + seq!['.']);
            lemma_text_at_split(s, p, ser_identifier(cx) + seq![' '], seq!['.']);
            assert(s[(p + e + 1) as int] == seq!['.'][0]);
            lemma_scan_identifier(s, p, cx);
            let e2 = identifier_scan_end(cx, p);
            assert(s[p as int] == (ser_identifier(cx) + seq![' '])[0]);
            match cx {
                IdentifierV::IRI(v) => {
                    assert((ser_identifier(cx) + seq![' '])[0] == ser_iri(v)[0]);
                    assert(ser_iri(v)[0] == '<');
                    assert(e2 == p + e);
                    assert(sp_step(s, p, line, column, st) == sp_step(s, e2, line, column + 1, stc));
                    lemma_text_at_split(s, p, ser_identifier(cx), seq![' ']);
                    assert(s[(p + e) as int] == seq![' '][0]);
                    assert(sp_step(s, e2, line, column + 1, stc) == sp_step(
                        s,
                        e2 + 1,
                        line,
                        column + 3,
                        stc,
                    ));
                    assert(s[(e2 + 1) as int] == '.');
                    assert(sp_step(s, e2 + 1, line, column + 3, stc) == (StepResult::Quad {
                        quad: QuadV {
                            subject: q.subject,
                            predicate: q.predicate,
                            object: q.object,
                            context: Option::Some(cx),
                        },
                        pos: e2 + 2,
                        line,
                        column: column + 4,
                    }));
                    assert(q == (QuadV {
                        subject: q.subject,
                        predicate: q.predicate,
                        object: q.object,
                        context: Option::Some(cx),
                    }));
                },
                IdentifierV::BlankNode(v) => {
                    assert((ser_identifier(cx) + seq![' '])[0] == ser_blank_node(v)[0]);
                    assert(ser_blank_node(v)[0] == '_');
                    assert(e2 == p + e + 1);
                    assert(sp_step(s, p, line, column, st) == sp_step(s, e2, line, column + 1, stc));
                    assert(s[e2 as int] == '.');
                    assert(sp_step(s, e2, line, column + 1, stc) == (StepResult::Quad {
                        quad: QuadV {
                            subject: q.subject,
                            predicate: q.predicate,
                            object: q.object,
                            context: Option::Some(cx),
                        },
                        pos: e2 + 1,
                        line,
                        column: column + 2,
                    }));
                    assert(q == (QuadV {
                        subject: q.subject,
                        predicate: q.predicate,
                        object: q.object,
                        context: Option::Some(cx),
                    }));
                },
            }
        },
    }
}

proof fn lemma_step_from_predicate_end(s: Seq<char>, p: nat, line: nat, column: nat, q: QuadV)
    requires
        wf_quad(q),
        text_at(s, p, tail_after_predicate(q)),
    ensures
        match sp_step(s, p, line, column, ScanState::HavePredicate(q.subject, q.predicate)) {
            StepResult::Quad { quad, pos, line: l2, column: _ } => quad == q && pos == p
                + tail_after_predicate(q).len() && l2 == line,
            _ => false,
        },
{
    let c = ser_node(q.object).len();
    let t3 = tail_after_object(q);
    let st = ScanState::HaveObject(q.subject, q.predicate, q.object);
    let stp = ScanState::HavePredicate(q.subject, q.predicate);
    lemma_text_at_split(s, p, ser_node(q.object), t3);
    assert(t3 =~= seq![' '] + closing_text(q)) by {
        match q.context {
            Option::None => {},
            Option::Some(cx) => {},
        }
    }
    lemma_text_at_split(s, p + c, seq![' '], closing_text(q));
    assert(s[(p + c) as int] == seq![' '][0]);
    lemma_text_at_singleton(s, p + c, ' ');
    lemma_text_at_join(s, p, ser_node(q.object), seq![' ']);
    lemma_scan_node(s, p, q.object);
    let e = node_scan_end(q.object, p);
    assert(s[p as int] == (ser_node(q.object) + seq![' '])[0]);
    match q.object {
        NodeV::BlankNode(v) => {
            assert((ser_node(q.object) + seq![' '])[0] == ser_blank_node(v)[0]);
            assert(ser_blank_node(v)[0] == '_');
            assert(e == p + c + 1);
            assert(sp_step(s, p, line, column, stp) == sp_step(s, e, line, column + 1, st));
            lemma_step_at_closing(s, p + c + 1, line, column + 1, q);
        },
        NodeV::IRI(v) => {
            assert((ser_node(q.object) + seq![' '])[0] == ser_iri(v)[0]);
            assert(ser_iri(v)[0] == '<');
            assert(e == p + c);
            assert(sp_step(s, p, line, column, stp) == sp_step(s, e, line, column + 1, st));
            assert(sp_step(s, e, line, column + 1, st) == sp_step(
                s,
                p + c + 1,
                line,
                column + 3,
                st,
            ));
            lemma_step_at_closing(s, p + c + 1, line, column + 3, q);
        },
        NodeV::Literal(l) => {
            assert((ser_node(q.object) + seq![' '])[0] == ser_literal(l)[0]);
            assert(ser_literal(l)[0] == '"') by {
                let quoted = seq!['"'] + escape_value(l.value) + seq!['"'];
                assert(quoted[0] == '"');
                match l.language {
                    Option::Some(lang) => {
                        assert(ser_literal(l)[0] == quoted[0]);
                    },
                    Option::None => {
                        if l.datatype != xsd_string() {
                            assert(ser_literal(l)[0] == quoted[0]);
                        }
                    },
                }
            }
            assert(e == p + c);
            assert(sp_step(s, p, line, column, stp) == sp_step(s, e, line, column + 1, st));
            assert(sp_step(s, e, line, column + 1, st) == sp_step(
                s,
                p + c + 1,
                line,
                column + 3,
                st,
            ));
            lemma_step_at_closing(s, p + c + 1, line, column + 3, q);
        },
    }
}

proof fn lemma_step_from_subject_end(s: Seq<char>, p: nat, line: nat, column: nat, q: QuadV)
    requires
        wf_quad(q),
        text_at(s, p, tail_after_subject(q)),
    ensures
        match sp_step(s, p, line, column, ScanState::HaveSubject(q.subject)) {
            StepResult::Quad { quad, pos, line: l2, column: _ } => quad == q && pos == p
                + tail_after_subject(q).len() && l2 == line,
            _ => false,
        },
{
    let b = q.predicate.len() + 2;
    let sts = ScanState::HaveSubject(q.subject);
    let stp = ScanState::HavePredicate(q.subject, q.predicate);
    assert(tail_after_subject(q) =~= (ser_iri(q.predicate) + seq![' ']) + tail_after_predicate(
        q,
    ));
    lemma_text_at_split(s, p, ser_iri(q.predicate) + seq![' '], tail_after_predicate(q));
    lemma_text_at_split(s, p, ser_iri(q.predicate), seq![' ']);
    assert(s[p as int] == (ser_iri(q.predicate) + seq![' '])[0]);
    assert((ser_iri(q.predicate) + seq![' '])[0] == ser_iri(q.predicate)[0]);
    assert(ser_iri(q.predicate)[0] == '<');
    lemma_scan_iri(s, p, q.predicate);
    assert(s[(p + b) as int] == seq![' '][0]);
    assert(sp_step(s, p, line, column, sts) == sp_step(s, p + b, line, column + 1, stp));
    assert(sp_step(s, p + b, line, column + 1, stp) == sp_step(
        s,
        p + b + 1,
        line,
        column + 3,
        stp,
    ));
    lemma_step_from_predicate_end(s, p + b + 1, line, column + 3, q);
}

/// Scanning a record at a position where a well-formed quad's full text line
/// lies yields exactly that quad, ending right after the closing dot, on the
/// same line.
pub proof fn lemma_scan_quad(s: Seq<char>, i: nat, line: nat, column: nat, q: QuadV)
    requires
        wf_quad(q),
        text_at(s, i, ser_quad(q)),
    ensures
        match sp_step(s, i, line, column, ScanState::Start) {
            StepResult::Quad { quad, pos, line: l2, column: _ } => quad == q && pos == i
                + ser_quad(q).len() && l2 == line,
            _ => false,
        },
{
    let a = ser_identifier(q.subject).len();
    assert(ser_quad(q) =~= (ser_identifier(q.subject) + seq![' ']) + tail_after_subject(q));
    lemma_text_at_split(s, i, ser_identifier(q.subject) + seq![' '], tail_after_subject(q));
    lemma_text_at_split(s, i, ser_identifier(q.subject), seq![' ']);
    lemma_text_at_join(s, i, ser_identifier(q.subject), seq![' ']);
    lemma_scan_identifier(s, i, q.subject);
    let e = identifier_scan_end(q.subject, i);
    let sts = ScanState::HaveSubject(q.subject);
    assert(s[(i + a) as int] == seq![' '][0]);
    assert(s[i as int] == (ser_identifier(q.subject) + seq![' '])[0]);
    match q.subject {
        IdentifierV::IRI(v) => {
            assert((ser_identifier(q.subject) + seq![' '])[0] == ser_iri(v)[0]);
            assert(ser_iri(v)[0] == '<');
            assert(e == i + a);
            assert(sp_step(s, i, line, column, ScanState::Start) == sp_step(
                s,
                e,
                line,
                column + 1,
                sts,
            ));
            assert(sp_step(s, e, line, column + 1, sts) == sp_step(
                s,
                i + a + 1,
                line,
                column + 3,
                sts,
            ));
            lemma_step_from_subject_end(s, i + a + 1, line, column + 3, q);
        },
        IdentifierV::BlankNode(v) => {
            assert((ser_identifier(q.subject) + seq![' '])[0] == ser_blank_node(v)[0]);
            assert(ser_blank_node(v)[0] == '_');
            assert(e == i + a + 1);
            assert(sp_step(s, i, line, column, ScanState::Start) == sp_step(
                s,
                e,
                line,
                column + 1,
                sts,
            ));
            lemma_step_from_subject_end(s, e, line, column + 1, q);
        },
    }
}

proof fn lemma_ser_lines_first(qs: Seq<QuadV>)
    requires
        qs.len() > 0,
    ensures
        ser_lines(qs) == ser_quad(qs[0]) + seq!['\n'] + ser_lines(qs.drop_first()),
    decreases qs.len(),
{
    if qs.len() == 1 {
        assert(qs.drop_last() =~= Seq::<QuadV>::empty());
        assert(qs.drop_first() =~= Seq::<QuadV>::empty());
        assert(ser_lines(qs) =~= ser_quad(qs[0]) + seq!['\n'] + ser_lines(qs.drop_first()));
    } else {
        let u = qs.drop_last();
        lemma_ser_lines_first(u);
        assert(u[0] == qs[0]);
        assert(qs.drop_first().drop_last() =~= u.drop_first());
        assert(qs.drop_first().len() > 0);
        assert(qs.drop_first().last() == qs.last());
        assert(ser_lines(qs.drop_first()) == ser_lines(u.drop_first()) + ser_quad(qs.last())
            + seq!['\n']);
        assert(ser_lines(qs) == ser_lines(u) + ser_quad(qs.last()) + seq!['\n']);
        assert(ser_lines(qs) =~= ser_quad(qs[0]) + seq!['\n'] + ser_lines(qs.drop_first()));
    }
}

proof fn lemma_parse_skip_newline(s: Seq<char>, i: nat, line: nat, column: nat)
    requires
        i < s.len(),
        s[i as int] == '\n',
    ensures
        sp_parse(s, i, line, column) == sp_parse(s, i + 1, line + 1, 0),
{
    assert(sp_step(s, i, line, column, ScanState::Start) == sp_step(
        s,
        i + 1,
        line + 1,
        0,
        ScanState::Start,
    ));
    if i + 1 >= s.len() {
        assert(sp_step(s, i + 1, line + 1, 0, ScanState::Start) is End);
        assert(sp_parse(s, i, line, column) == (ParseOutcomeV {
            quads: Seq::empty(),
            error: Option::None,
        }));
        assert(sp_parse(s, i + 1, line + 1, 0) == (ParseOutcomeV {
            quads: Seq::empty(),
            error: Option::None,
        }));
    } else {
        match sp_step(s, i, line, column, ScanState::Start) {
            StepResult::End => {
                assert(sp_parse(s, i, line, column) == sp_parse(s, i + 1, line + 1, 0));
            },
            StepResult::Error { fault, line: l, column: c } => {
                assert(sp_parse(s, i, line, column) == sp_parse(s, i + 1, line + 1, 0));
            },
            StepResult::Quad { quad, pos, line: l, column: c } => {
                assert(sp_parse(s, i, line, column) == sp_parse(s, i + 1, line + 1, 0));
            },
        }
    }
}

proof fn lemma_parse_serialized_from(s: Seq<char>, i: nat, line: nat, column: nat, qs: Seq<QuadV>)
    requires
        forall|k: int| 0 <= k < qs.len() ==> wf_quad(#[trigger] qs[k]),
        i + ser_lines(qs).len() == s.len(),
        text_at(s, i, ser_lines(qs)),
    ensures
        sp_parse(s, i, line, column) == (ParseOutcomeV { quads: qs, error: Option::None }),
    decreases qs.len(),
{
    if qs.len() == 0 {
        assert(ser_lines(qs) =~= Seq::<char>::empty());
        assert(i == s.len());
        assert(qs =~= Seq::<QuadV>::empty());
    } else {
        lemma_ser_lines_first(qs);
        let q0 = qs[0];
        let l0 = ser_quad(q0).len();
        assert(wf_quad(q0));
        assert(ser_lines(qs) =~= (ser_quad(q0) + seq!['\n']) + ser_lines(qs.drop_first()));
        lemma_text_at_split(s, i, ser_quad(q0) + seq!['\n'], ser_lines(qs.drop_first()));
        lemma_text_at_split(s, i, ser_quad(q0), seq!['\n']);
        lemma_scan_quad(s, i, line, column, q0);
        match sp_step(s, i, line, column, ScanState::Start) {
            StepResult::Quad { quad, pos, line: l2, column: c2 } => {
                assert(quad == q0 && pos == i + l0 && l2 == line);
                assert(s[(i + l0) as int] == seq!['\n'][0]);
                assert(i < s.len());
                assert(sp_parse(s, i, line, column) == (ParseOutcomeV {
                    quads: seq![q0] + sp_parse(s, pos, l2, c2).quads,
                    error: sp_parse(s, pos, l2, c2).error,
                }));
                lemma_parse_skip_newline(s, pos, l2, c2);
                lemma_parse_serialized_from(s, pos + 1, l2 + 1, 0, qs.drop_first());
                assert(seq![q0] + qs.drop_first() =~= qs);
            },
            StepResult::Error { fault, line: l2, column: c2 } => {
                assert(false);
            },
            StepResult::End => {
                assert(false);
            },
        }
    }
}

/// Round trip: the serialized text of any sequence of well-formed quads
/// parses back to exactly those quads, in order and with no error — so in
/// particular, as sets, parsing the serialization of a quad set gives that
/// set back.
pub proof fn lemma_round_trip(qs: Seq<QuadV>)
    requires
        forall|k: int| 0 <= k < qs.len() ==> wf_quad(#[trigger] qs[k]),
    ensures
        sp_parse(ser_lines(qs), 0, 1, 0).quads == qs,
        sp_parse(ser_lines(qs), 0, 1, 0).error is None,
        sp_parse(ser_lines(qs), 0, 1, 0).quads.to_set() == qs.to_set(),
{
    let s = ser_lines(qs);
    assert forall|k: int| 0 <= k < s.len() implies s[0 + k] == #[trigger] s[k] by {}
    lemma_parse_serialized_from(s, 0, 1, 0, qs);
}

} // verus!
