//! A fixed example dataset used by the tests: a handful of facts about two
//! people, a blank node with several labels, and a typed number.

use vstd::prelude::*;
use vstd::string::StringExecFns;
use crate::dataset::Dataset;
use crate::namespace::xsd_string;
use crate::quad::{Quad, QuadV};
use crate::term::{BlankNode, Identifier, IdentifierV, Literal, LiteralV, Node, NodeV, IRI};

verus! {

/// The example quads, as a set of values.
pub open spec fn test_quad_set() -> Set<QuadV> {
    let ontology = IdentifierV::IRI("http://example.com#ontology"@);
    let tamir = IdentifierV::IRI("http://example.com#tamir"@);
    let iddan = IdentifierV::IRI("http://example.com#iddan"@);
    let henry = IdentifierV::BlankNode("123"@);
    let likes = "http://example.com#likes"@;
    let rdf_type = "http://www.w3.org/1999/02/22-rdf-syntax-ns#type"@;
    let label = "http://www.w3.org/2000/01/rdf-schema#label"@;
    let person = NodeV::IRI("http://example.com#Person"@);
    Set::empty().insert(
        QuadV {
            subject: tamir,
            predicate: likes,
            object: NodeV::IRI("http://example.com#iddan"@),
            context: Option::Some(ontology),
        },
    ).insert(
        QuadV {
            subject: tamir,
            predicate: likes,
            object: NodeV::BlankNode("123"@),
            context: Option::Some(ontology),
        },
    ).insert(
        QuadV {
            subject: iddan,
            predicate: likes,
            object: NodeV::IRI("http://example.com#tamir"@),
            context: Option::Some(ontology),
        },
    ).insert(
        QuadV { subject: tamir, predicate: rdf_type, object: person, context: Option::Some(ontology) },
    ).insert(
        QuadV {
            subject: IdentifierV::IRI("http://example.com/test#lior"@),
            predicate: rdf_type,
            object: person,
            context: Option::Some(ontology),
        },
    ).insert(
        QuadV { subject: henry, predicate: rdf_type, object: person, context: Option::Some(ontology) },
    ).insert(
        QuadV { subject: iddan, predicate: rdf_type, object: person, context: Option::Some(ontology) },
    ).insert(
        QuadV {
            subject: henry,
            predicate: label,
            object: NodeV::Literal(
                LiteralV { value: "Henry"@, datatype: xsd_string(), language: Option::None },
            ),
            context: Option::Some(ontology),
        },
    ).insert(
        QuadV {
            subject: henry,
            predicate: label,
            object: NodeV::Literal(
                LiteralV {
                    value: "Hendrik"@,
                    datatype: xsd_string(),
                    language: Option::Some("nl"@),
                },
            ),
            context: Option::Some(ontology),
        },
    ).insert(
        QuadV {
            subject: henry,
            predicate: label,
            object: NodeV::Literal(
                LiteralV {
                    value: "Heinrich"@,
                    datatype: xsd_string(),
                    language: Option::Some("de"@),
                },
            ),
            context: Option::Some(ontology),
        },
    ).insert(
        QuadV {
            subject: henry,
            predicate: label,
            object: NodeV::Literal(
                LiteralV { value: "Hei nrich"@, datatype: xsd_string(), language: Option::None },
            ),
            context: Option::Some(ontology),
        },
    ).insert(
        QuadV {
            subject: henry,
            predicate: label,
            object: NodeV::Literal(
                LiteralV { value: "Hei \"nrich"@, datatype: xsd_string(), language: Option::None },
            ),
            context: Option::Some(ontology),
        },
    ).insert(
        QuadV {
            subject: henry,
            predicate: "http://example.com#age"@,
            object: NodeV::Literal(
                LiteralV {
                    value: "20"@,
                    datatype: "http://www.w3.org/2001/XMLSchema#integer"@,
                    language: Option::None,
                },
            ),
            context: Option::Some(ontology),
        },
    )
}

/// An IRI term from a literal.
fn iri(text: &str) -> (r: IRI)
    ensures
        r@ == text@,
{
    IRI::new(String::from_str(text))
}

/// An IRI subject or context from a literal.
fn iri_identifier(text: &str) -> (r: Identifier)
    ensures
        r@ == IdentifierV::IRI(text@),
{
    Identifier::IRI(iri(text))
}

/// A blank-node subject from a literal label.
fn blank_identifier(text: &str) -> (r: Identifier)
    ensures
        r@ == IdentifierV::BlankNode(text@),
{
    Identifier::BlankNode(BlankNode::from_value(String::from_str(text)))
}

/// An IRI object from a literal.
fn iri_node(text: &str) -> (r: Node)
    ensures
        r@ == NodeV::IRI(text@),
{
    Node::IRI(iri(text))
}

/// A plain string literal object.
fn plain_literal_node(text: &str) -> (r: Node)
    ensures
        r@ == NodeV::Literal(
            LiteralV { value: text@, datatype: xsd_string(), language: Option::None },
        ),
{
    Node::Literal(Literal::new(String::from_str(text), Option::None, Option::None))
}

/// A language-tagged string literal object.
fn tagged_literal_node(text: &str, lang: &str) -> (r: Node)
    ensures
        r@ == NodeV::Literal(
            LiteralV {
                value: text@,
                datatype: xsd_string(),
                language: Option::Some(lang@),
            },
        ),
{
    Node::Literal(
        Literal::new(String::from_str(text), Option::None, Option::Some(String::from_str(lang))),
    )
}

/// The example dataset.
pub fn get_quads() -> (r: Dataset)
    ensures
        r@ == test_quad_set(),
{
    let mut set = Dataset::new();
    set.insert(
        Quad::new(
            iri_identifier("http://example.com#tamir"),
            iri("http://example.com#likes"),
            iri_node("http://example.com#iddan"),
            Option::Some(iri_identifier("http://example.com#ontology")),
        ),
    );
    set.insert(
        Quad::new(
            iri_identifier("http://example.com#tamir"),
            iri("http://example.com#likes"),
            Node::BlankNode(BlankNode::from_value(String::from_str("123"))),
            Option::Some(iri_identifier("http://example.com#ontology")),
        ),
    );
    set.insert(
        Quad::new(
            iri_identifier("http://example.com#iddan"),
            iri("http://example.com#likes"),
            iri_node("http://example.com#tamir"),
            Option::Some(iri_identifier("http://example.com#ontology")),
        ),
    );
    set.insert(
        Quad::new(
            iri_identifier("http://example.com#tamir"),
            iri("http://www.w3.org/1999/02/22-rdf-syntax-ns#type"),
            iri_node("http://example.com#Person"),
            Option::Some(iri_identifier("http://example.com#ontology")),
        ),
    );
    set.insert(
        Quad::new(
            iri_identifier("http://example.com/test#lior"),
            iri("http://www.w3.org/1999/02/22-rdf-syntax-ns#type"),
            iri_node("http://example.com#Person"),
            Option::Some(iri_identifier("http://example.com#ontology")),
        ),
    );
    set.insert(
        Quad::new(
            blank_identifier("123"),
            iri("http://www.w3.org/1999/02/22-rdf-syntax-ns#type"),
            iri_node("http://example.com#Person"),
            Option::Some(iri_identifier("http://example.com#ontology")),
        ),
    );
    set.insert(
        Quad::new(
            iri_identifier("http://example.com#iddan"),
            iri("http://www.w3.org/1999/02/22-rdf-syntax-ns#type"),
            iri_node("http://example.com#Person"),
            Option::Some(iri_identifier("http://example.com#ontology")),
        ),
    );
    set.insert(
        Quad::new(
            blank_identifier("123"),
            iri("http://www.w3.org/2000/01/rdf-schema#label"),
            plain_literal_node("Henry"),
            Option::Some(iri_identifier("http://example.com#ontology")),
        ),
    );
    set.insert(
        Quad::new(
            blank_identifier("123"),
            iri("http://www.w3.org/2000/01/rdf-schema#label"),
            tagged_literal_node("Hendrik", "nl"),
            Option::Some(iri_identifier("http://example.com#ontology")),
        ),
    );
    set.insert(
        Quad::new(
            blank_identifier("123"),
            iri("http://www.w3.org/2000/01/rdf-schema#label"),
            tagged_literal_node("Heinrich", "de"),
            Option::Some(iri_identifier("http://example.com#ontology")),
        ),
    );
    set.insert(
        Quad::new(
            blank_identifier("123"),
            iri("http://www.w3.org/2000/01/rdf-schema#label"),
            plain_literal_node("Hei nrich"),
            Option::Some(iri_identifier("http://example.com#ontology")),
        ),
    );
    set.insert(
        Quad::new(
            blank_identifier("123"),
            iri("http://www.w3.org/2000/01/rdf-schema#label"),
            plain_literal_node("Hei \"nrich"),
            Option::Some(iri_identifier("http://example.com#ontology")),
        ),
    );
    set.insert(
        Quad::new(
            blank_identifier("123"),
            iri("http://example.com#age"),
            Node::Literal(
                Literal::new(
                    String::from_str("20"),
                    Option::Some(iri("http://www.w3.org/2001/XMLSchema#integer")),
                    Option::None,
                ),
            ),
            Option::Some(iri_identifier("http://example.com#ontology")),
        ),
    );
    set
}

} // verus!
