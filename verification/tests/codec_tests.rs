//! Tests for the N-Quads serializer and parser.

use minerva::dataset::{ContextFilter, Dataset};
use minerva::nquads_deserialize::{deserialize, deserialize_identifier, deserialize_iri, deserialize_node};
use minerva::nquads_serialize::{
    serialize,
    serialize_blank_node,
    serialize_identifier,
    serialize_iri,
    serialize_literal,
    serialize_node,
    serialize_quad,
};
use minerva::quad::Quad;
use minerva::term::{BlankNode, Identifier, Literal, Node, IRI};
use minerva::test_set::get_quads;

fn example_iri(name: &str) -> IRI {
    IRI::new(format!("http://example.com#{}", name))
}

fn collect_quads(text: &str) -> Result<Vec<Quad>, minerva::nquads_deserialize::ParseError> {
    let mut cursor = deserialize(text);
    let mut out = Vec::new();
    while let Some(item) = cursor.next() {
        match item {
            Ok(quad) => out.push(quad),
            Err(e) => return Err(e),
        }
    }
    Ok(out)
}

fn dataset_of(quads: &[Quad]) -> Dataset {
    let mut d = Dataset::new();
    d.extend(quads.to_vec());
    d
}

fn all_quads(dataset: &Dataset) -> Vec<Quad> {
    dataset.match_quads(None, None, None, &ContextFilter::Unconstrained)
}

fn same_quad_set(a: &Dataset, b: &Dataset) -> bool {
    if a.len() != b.len() {
        return false;
    }
    all_quads(a).iter().all(|q| b.contains(q)) && all_quads(b).iter().all(|q| a.contains(q))
}

const TEST_NQUADS: &str = "<http://example.com#tamir> <http://example.com#likes> <http://example.com#iddan> <http://example.com#ontology> .\n<http://example.com#tamir> <http://example.com#likes> _:123 <http://example.com#ontology> .\n<http://example.com#iddan> <http://example.com#likes> <http://example.com#tamir> <http://example.com#ontology> .\n<http://example.com#tamir> <http://www.w3.org/1999/02/22-rdf-syntax-ns#type> <http://example.com#Person> <http://example.com#ontology> .\n<http://example.com/test#lior> <http://www.w3.org/1999/02/22-rdf-syntax-ns#type> <http://example.com#Person> <http://example.com#ontology> .\n_:123 <http://www.w3.org/1999/02/22-rdf-syntax-ns#type> <http://example.com#Person> <http://example.com#ontology> .\n<http://example.com#iddan> <http://www.w3.org/1999/02/22-rdf-syntax-ns#type> <http://example.com#Person> <http://example.com#ontology> .\n_:123 <http://www.w3.org/2000/01/rdf-schema#label> \"Henry\" <http://example.com#ontology> .\n_:123 <http://www.w3.org/2000/01/rdf-schema#label> \"Hendrik\"@nl <http://example.com#ontology> .\n_:123 <http://www.w3.org/2000/01/rdf-schema#label> \"Heinrich\"@de <http://example.com#ontology> .\n_:123 <http://www.w3.org/2000/01/rdf-schema#label> \"Hei nrich\" <http://example.com#ontology> .\n_:123 <http://www.w3.org/2000/01/rdf-schema#label> \"Hei \\\"nrich\" <http://example.com#ontology> .\n_:123 <http://example.com#age> \"20\"^^<http://www.w3.org/2001/XMLSchema#integer> <http://example.com#ontology> .\n";

#[test]
fn test_deserialize() {
    let parsed = collect_quads(TEST_NQUADS).unwrap();
    let set = get_quads();
    assert!(same_quad_set(&dataset_of(&parsed), &set));
}

#[test]
fn test_serialize() {
    let set = get_quads();
    let nquads = serialize(&all_quads(&set));
    let mut expected: Vec<String> = TEST_NQUADS.lines().map(|l| l.to_string()).collect();
    let mut produced: Vec<String> = nquads.lines().map(|l| l.to_string()).collect();
    expected.sort();
    produced.sort();
    println!("{:?}", produced);
    assert_eq!(produced, expected);
}

#[test]
fn serializer_term_forms() {
    assert_eq!(serialize_iri(example_iri("a")).as_str(), "<http://example.com#a>");
    assert_eq!(serialize_blank_node(BlankNode::from_value("b1".to_string())).as_str(), "_:b1");
    assert_eq!(
        serialize_identifier(Identifier::BlankNode(BlankNode::from_value("x".to_string())))
            .as_str(),
        "_:x"
    );
    // Bare form for the default string datatype.
    assert_eq!(
        serialize_literal(Literal::new("hi".to_string(), None, None)).as_str(),
        "\"hi\""
    );
    // Language-tagged form.
    assert_eq!(
        serialize_literal(Literal::new("hoi".to_string(), None, Some("nl".to_string()))).as_str(),
        "\"hoi\"@nl"
    );
    // Typed form.
    assert_eq!(
        serialize_literal(Literal::new(
            "20".to_string(),
            Some(IRI::new("http://www.w3.org/2001/XMLSchema#integer".to_string())),
            None,
        ))
        .as_str(),
        "\"20\"^^<http://www.w3.org/2001/XMLSchema#integer>"
    );
    // Quotes are escaped.
    assert_eq!(
        serialize_literal(Literal::new("a\"b".to_string(), None, None)).as_str(),
        "\"a\\\"b\""
    );
    assert_eq!(
        serialize_node(Node::Literal(Literal::new("x".to_string(), None, None))).as_str(),
        "\"x\""
    );
}

#[test]
fn serializer_quad_forms() {
    let no_context = Quad::new(
        Identifier::IRI(example_iri("a")),
        example_iri("p"),
        Node::IRI(example_iri("b")),
        None,
    );
    assert_eq!(
        serialize_quad(no_context).as_str(),
        "<http://example.com#a> <http://example.com#p> <http://example.com#b> ."
    );
    let with_context = Quad::new(
        Identifier::IRI(example_iri("a")),
        example_iri("p"),
        Node::IRI(example_iri("b")),
        Some(Identifier::IRI(example_iri("g"))),
    );
    assert_eq!(
        serialize_quad(with_context).as_str(),
        "<http://example.com#a> <http://example.com#p> <http://example.com#b> <http://example.com#g> ."
    );
}

#[test]
fn parse_two_literal_forms() {
    // Two lines that differ only in the object's datatype parse to two
    // distinct quads.
    let text = "<ex:a> <ex:p> \"hi\" .\n<ex:a> <ex:p> \"hi\"^^<ex:dt> .\n";
    let quads = collect_quads(text).unwrap();
    assert_eq!(quads.len(), 2);
    assert_ne!(quads[0], quads[1]);
    assert_eq!(quads[0].subject, quads[1].subject);
    assert_eq!(quads[0].predicate, quads[1].predicate);
    match (&quads[0].object, &quads[1].object) {
        (Node::Literal(a), Node::Literal(b)) => {
            assert_eq!(a.value, "hi");
            assert_eq!(b.value, "hi");
            assert_eq!(a.datatype.value, "http://www.w3.org/2001/XMLSchema#string");
            assert_eq!(b.datatype.value, "ex:dt");
        }
        _ => panic!("expected literal objects"),
    }
}

#[test]
fn blank_node_label_survives_round_trip() {
    let text = "<ex:a> <ex:p> _:b1 .\n";
    let quads = collect_quads(text).unwrap();
    assert_eq!(quads.len(), 1);
    assert_eq!(quads[0].object, Node::BlankNode(BlankNode::from_value("b1".to_string())));
    let rewritten = serialize(&quads);
    assert_eq!(rewritten.as_str(), "<ex:a> <ex:p> _:b1 .\n");
}

#[test]
fn malformed_iri_reports_position() {
    // The missing `>` makes the rest of the line be swallowed into the
    // subject IRI; the fault surfaces at the closing dot.
    let err = collect_quads("<ex:a <ex:p> <ex:b> .").unwrap_err();
    assert_eq!(err.line, 1);
    assert_eq!(err.column, 7);
    assert_eq!(err.message, "Unexpected character .");
}

#[test]
fn error_renders_as_one_line() {
    let err = collect_quads("<ex:a <ex:p> <ex:b> .").unwrap_err();
    assert_eq!(err.to_text(), "At line 1 column 7: Unexpected character .");
}

#[test]
fn mid_record_line_break_is_an_error() {
    let err = collect_quads("<ex:a> <ex:p>\n<ex:b> .\n").unwrap_err();
    assert_eq!(err.line, 1);
    assert_eq!(err.message, "Unexpected character \n");
}

#[test]
fn unexpected_end_of_input() {
    let err = collect_quads("<ex:a> <ex:p").unwrap_err();
    assert_eq!(err.line, 1);
    assert_eq!(err.message, "Unexpected EOF");
}

#[test]
fn unexpected_leading_character() {
    let err = collect_quads("x").unwrap_err();
    assert_eq!(err.message, "Unexpected character x");
}

#[test]
fn early_dot_is_an_error() {
    let err = collect_quads("<ex:a> <ex:p> .").unwrap_err();
    assert_eq!(err.message, "Unexpected character .");
}

#[test]
fn empty_input_yields_nothing() {
    assert_eq!(collect_quads("").unwrap(), vec![]);
    assert_eq!(collect_quads("\n\n").unwrap(), vec![]);
}

#[test]
fn serializing_nothing_writes_nothing() {
    assert_eq!(serialize(&vec![]).as_str(), "");
}

#[test]
fn error_rendering_handles_wider_positions() {
    let err = collect_quads("<ex:a> <ex:p> <ex:b> x .").unwrap_err();
    assert_eq!(err.to_text(), "At line 1 column 10: Unexpected character x");
}

#[test]
fn repeated_context_term_keeps_the_last() {
    // The grammar accepts more than one context term before the dot; the
    // last one read wins.
    let quads = collect_quads("<ex:a> <ex:p> <ex:b> <ex:g> <ex:h> .\n").unwrap();
    assert_eq!(quads.len(), 1);
    assert_eq!(
        quads[0].context,
        Some(Identifier::IRI(IRI::new("ex:h".to_string())))
    );
}

#[test]
fn blank_lines_between_records_are_skipped() {
    let text = "\n<ex:a> <ex:p> <ex:b> .\n\n<ex:b> <ex:p> <ex:a> .\n";
    let quads = collect_quads(text).unwrap();
    assert_eq!(quads.len(), 2);
}

#[test]
fn error_line_counting() {
    let err = collect_quads("<ex:a> <ex:p> <ex:b> .\n<oops .\n").unwrap_err();
    assert_eq!(err.line, 2);
}

#[test]
fn term_parsers_on_character_vectors() {
    let chars: Vec<char> = "<ex:a> rest".chars().collect();
    let (iri, end) = deserialize_iri(&chars, 0);
    assert_eq!(iri.unwrap(), IRI::new("ex:a".to_string()));
    assert_eq!(end, 6);

    let chars: Vec<char> = "_:b1 rest".chars().collect();
    let (identifier, end) = deserialize_identifier(&chars, 0);
    assert_eq!(
        identifier.unwrap(),
        Identifier::BlankNode(BlankNode::from_value("b1".to_string()))
    );
    assert_eq!(end, 5);

    let chars: Vec<char> = "\"hoi\"@nl .".chars().collect();
    let (node, _) = deserialize_node(&chars, 0);
    assert_eq!(
        node.unwrap(),
        Node::Literal(Literal::new("hoi".to_string(), None, Some("nl".to_string())))
    );

    let chars: Vec<char> = "oops".chars().collect();
    let (bad, _) = deserialize_node(&chars, 0);
    assert_eq!(bad.unwrap_err(), "Unexpected character o");
}

#[test]
fn round_trip_preserves_quad_sets() {
    let quads = vec![
        Quad::new(
            Identifier::IRI(example_iri("a")),
            example_iri("p"),
            Node::Literal(Literal::new("say \"hi\"".to_string(), None, None)),
            None,
        ),
        Quad::new(
            Identifier::BlankNode(BlankNode::from_value("b1".to_string())),
            example_iri("p"),
            Node::Literal(Literal::new("hoi".to_string(), None, Some("nl".to_string()))),
            Some(Identifier::IRI(example_iri("g"))),
        ),
        Quad::new(
            Identifier::IRI(example_iri("a")),
            example_iri("age"),
            Node::Literal(Literal::new(
                "20".to_string(),
                Some(IRI::new("http://www.w3.org/2001/XMLSchema#integer".to_string())),
                None,
            )),
            Some(Identifier::BlankNode(BlankNode::from_value("g2".to_string()))),
        ),
        Quad::new(
            Identifier::IRI(example_iri("a")),
            example_iri("p"),
            Node::BlankNode(BlankNode::from_value("b2".to_string())),
            None,
        ),
    ];
    let text = serialize(&quads);
    let parsed = collect_quads(&text).unwrap();
    assert_eq!(parsed, quads);
    assert!(same_quad_set(&dataset_of(&parsed), &dataset_of(&quads)));
}
