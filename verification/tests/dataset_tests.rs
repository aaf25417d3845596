//! Tests for the term model, quads and the dataset.

use minerva::dataset::{ContextFilter, Dataset};
use minerva::namespace::{rdf, xsd, Namespace};
use minerva::quad::Quad;
use minerva::term::{BlankNode, Identifier, Literal, Node, IRI};

fn example_iri(name: &str) -> IRI {
    IRI::new(format!("http://example.com#{}", name))
}

fn all_quads(dataset: &Dataset) -> Vec<Quad> {
    dataset.match_quads(None, None, None, &ContextFilter::Unconstrained)
}

fn same_quad_set(a: &Dataset, b: &Dataset) -> bool {
    if a.len() != b.len() {
        return false;
    }
    all_quads(a).iter().all(|q| b.contains(q)) && all_quads(b).iter().all(|q| a.contains(q))
}

#[test]
fn lib_it_works() {
    let example = Namespace::new("http://example.com#".to_string());
    let iddan = example.iri("iddan");
    let likes = example.iri("likes");
    let tamir = example.iri("tamir");
    let _type = rdf().iri("type");
    let person = example.iri("Person");
    let ontology = example.iri("ontology");
    let context = Some(Identifier::IRI(ontology));
    let fact = Quad::new(
        Identifier::IRI(iddan.clone()),
        likes.clone(),
        Node::IRI(tamir.clone()),
        context.clone(),
    );
    let mut dataset = Dataset::new();
    dataset.insert(fact);
    println!("{:?}", dataset);
    let fact2 = Quad::new(
        Identifier::IRI(tamir.clone()),
        likes.clone(),
        Node::IRI(iddan.clone()),
        context.clone(),
    );
    dataset.insert(fact2);
    println!("{:?}", dataset);
    let fact3 = Quad::new(
        Identifier::IRI(iddan.clone()),
        _type.clone(),
        Node::IRI(person.clone()),
        context.clone(),
    );
    let fact4 = Quad::new(
        Identifier::IRI(tamir.clone()),
        _type.clone(),
        Node::IRI(person.clone()),
        context.clone(),
    );
    let lior = IRI::new("http://example.com/test#lior".to_string());
    let fact5 = Quad::new(Identifier::IRI(lior), _type, Node::IRI(person), context);
    dataset.extend(vec![fact3, fact4, fact5]);
}

#[test]
fn test_dataset() {
    let dataset = Dataset::new();
    assert_eq!(dataset.len(), 0);
}

#[test]
fn insert_is_idempotent() {
    let mut dataset = Dataset::new();
    let quad = Quad::new(
        Identifier::IRI(example_iri("iddan")),
        example_iri("likes"),
        Node::IRI(example_iri("tamir")),
        None,
    );
    dataset.insert(quad.clone());
    assert_eq!(dataset.len(), 1);
    assert!(dataset.contains(&quad));
    dataset.insert(quad.clone());
    assert_eq!(dataset.len(), 1);
    assert!(dataset.contains(&quad));
}

#[test]
fn match_single_subject() {
    // Insert one quad with no context, then match on its subject alone.
    let mut dataset = Dataset::new();
    let quad = Quad::new(
        Identifier::IRI(example_iri("iddan")),
        example_iri("likes"),
        Node::IRI(example_iri("tamir")),
        None,
    );
    dataset.insert(quad.clone());
    let subject = Identifier::IRI(example_iri("iddan"));
    let found = dataset.match_quads(Some(&subject), None, None, &ContextFilter::Unconstrained);
    assert_eq!(found, vec![quad]);
}

#[test]
fn match_filters_are_a_conjunction() {
    let mut dataset = Dataset::new();
    let likes = example_iri("likes");
    let knows = example_iri("knows");
    let iddan = Identifier::IRI(example_iri("iddan"));
    let tamir = Identifier::IRI(example_iri("tamir"));
    let ontology = Identifier::IRI(example_iri("ontology"));
    let q1 = Quad::new(iddan.clone(), likes.clone(), Node::IRI(example_iri("tamir")), None);
    let q2 = Quad::new(
        iddan.clone(),
        knows.clone(),
        Node::IRI(example_iri("tamir")),
        Some(ontology.clone()),
    );
    let q3 = Quad::new(tamir.clone(), likes.clone(), Node::IRI(example_iri("iddan")), None);
    dataset.extend(vec![q1.clone(), q2.clone(), q3.clone()]);

    // Unconstrained: everything.
    assert_eq!(all_quads(&dataset).len(), 3);
    // Subject alone.
    let by_subject = dataset.match_quads(Some(&iddan), None, None, &ContextFilter::Unconstrained);
    assert_eq!(by_subject.len(), 2);
    assert!(by_subject.contains(&q1) && by_subject.contains(&q2));
    // Subject and predicate together: the conjunction narrows.
    let by_both =
        dataset.match_quads(Some(&iddan), Some(&likes), None, &ContextFilter::Unconstrained);
    assert_eq!(by_both, vec![q1.clone()]);
    // Default graph only: q2 lives in a named graph, so it is excluded.
    let default_only = dataset.match_quads(None, None, None, &ContextFilter::DefaultGraphOnly);
    assert_eq!(default_only.len(), 2);
    assert!(default_only.contains(&q1) && default_only.contains(&q3));
    // One named graph.
    let named = dataset.match_quads(
        None,
        None,
        None,
        &ContextFilter::NamedGraph(ontology.clone()),
    );
    assert_eq!(named, vec![q2.clone()]);
    // A filter that matches no stored field.
    let none = dataset.match_quads(
        Some(&Identifier::IRI(example_iri("nobody"))),
        None,
        None,
        &ContextFilter::Unconstrained,
    );
    assert!(none.is_empty());
}

#[test]
fn set_algebra_laws_on_values() {
    let likes = example_iri("likes");
    let iddan = Identifier::IRI(example_iri("iddan"));
    let tamir = Identifier::IRI(example_iri("tamir"));
    let q1 = Quad::new(iddan.clone(), likes.clone(), Node::IRI(example_iri("tamir")), None);
    let q2 = Quad::new(tamir.clone(), likes.clone(), Node::IRI(example_iri("iddan")), None);
    let q3 = Quad::new(iddan.clone(), likes.clone(), Node::IRI(example_iri("lior")), None);
    let mut a = Dataset::new();
    a.extend(vec![q1.clone(), q2.clone()]);
    let mut b = Dataset::new();
    b.extend(vec![q2.clone(), q3.clone()]);

    // union(A, B) == union(B, A)
    let ab = a.union(&b);
    let ba = b.union(&a);
    assert!(same_quad_set(&ab, &ba));
    assert_eq!(ab.len(), 3);

    // difference(A, A) is empty
    let empty = a.difference(&a);
    assert_eq!(empty.len(), 0);

    // union(A, difference(B, A)) contains A
    let patched = a.union(&b.difference(&a));
    assert!(all_quads(&a).iter().all(|q| patched.contains(q)));
}

#[test]
fn literal_equality_distinguishes_datatype_and_language() {
    let plain_int = Literal::new(
        "20".to_string(),
        Some(IRI::new("http://www.w3.org/2001/XMLSchema#integer".to_string())),
        None,
    );
    let plain_string = Literal::new("20".to_string(), None, None);
    let tagged = Literal::new("20".to_string(), None, Some("en".to_string()));
    assert_ne!(plain_int, plain_string);
    assert_ne!(plain_string, tagged);
    assert_ne!(plain_int, tagged);
    assert_eq!(plain_string, Literal::new("20".to_string(), None, None));
}

#[test]
fn default_literal_datatype_is_xsd_string() {
    let literal = Literal::new("hello".to_string(), None, None);
    assert_eq!(literal.datatype.value, "http://www.w3.org/2001/XMLSchema#string");
    assert_eq!(xsd().iri("string"), literal.datatype);
}

#[test]
fn blank_node_labels() {
    let fresh = BlankNode::new();
    assert_eq!(fresh.value.chars().count(), 36);
    assert!(!fresh.value.contains(' '));
    let named = BlankNode::from_value("b1".to_string());
    assert_eq!(named.value, "b1");
    assert_eq!(named, BlankNode::from_value("b1".to_string()));
    assert_ne!(BlankNode::new(), BlankNode::new());
}

#[test]
fn projections_follow_match_quads() {
    let mut dataset = Dataset::new();
    let likes = example_iri("likes");
    let iddan = Identifier::IRI(example_iri("iddan"));
    let tamir = Identifier::IRI(example_iri("tamir"));
    let q1 = Quad::new(iddan.clone(), likes.clone(), Node::IRI(example_iri("tamir")), None);
    let q2 = Quad::new(tamir.clone(), likes.clone(), Node::IRI(example_iri("iddan")), None);
    dataset.extend(vec![q1.clone(), q2.clone()]);

    let subjects = dataset.subjects(Some(&likes), None, &ContextFilter::Unconstrained);
    assert_eq!(subjects.len(), 2);
    assert!(subjects.contains(&iddan) && subjects.contains(&tamir));

    let predicates = dataset.predicates(Some(&iddan), None, &ContextFilter::Unconstrained);
    assert_eq!(predicates, vec![likes.clone()]);

    let objects = dataset.objects(Some(&iddan), Some(&likes), &ContextFilter::Unconstrained);
    assert_eq!(objects, vec![Node::IRI(example_iri("tamir"))]);

    let pairs = dataset.predicate_objects(Some(&tamir), &ContextFilter::Unconstrained);
    assert_eq!(pairs, vec![(likes.clone(), Node::IRI(example_iri("iddan")))]);

    let sp = dataset.subject_predicates(
        Some(&Node::IRI(example_iri("iddan"))),
        &ContextFilter::Unconstrained,
    );
    assert_eq!(sp, vec![(tamir.clone(), likes.clone())]);

    let so = dataset.subject_objects(Some(&likes), &ContextFilter::Unconstrained);
    assert_eq!(so.len(), 2);
}
