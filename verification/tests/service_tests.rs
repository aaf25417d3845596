//! Tests for the read and write services.

use minerva::dataset::{ContextFilter, Dataset};
use minerva::quad::Quad;
use minerva::read_service::{read, Params};
use minerva::term::{Identifier, Node, IRI};
use minerva::write_service;

fn no_params() -> Params {
    Params { subject: None, predicate: None, object: None, context: None }
}

#[test]
fn write_stores_every_line() {
    let mut dataset = Dataset::new();
    let result = write_service::write("<ex:a> <ex:p> <ex:b> .\n<ex:b> <ex:p> <ex:a> .\n", &mut dataset);
    assert!(result.is_ok());
    assert_eq!(dataset.len(), 2);
    let expected = Quad::new(
        Identifier::IRI(IRI::new("ex:a".to_string())),
        IRI::new("ex:p".to_string()),
        Node::IRI(IRI::new("ex:b".to_string())),
        None,
    );
    assert!(dataset.contains(&expected));
}

#[test]
fn write_deduplicates() {
    let mut dataset = Dataset::new();
    write_service::write("<ex:a> <ex:p> <ex:b> .\n<ex:a> <ex:p> <ex:b> .\n", &mut dataset).unwrap();
    assert_eq!(dataset.len(), 1);
}

#[test]
fn write_stops_at_the_first_fault() {
    // One well-formed line, then a malformed one: the first line's quad is
    // kept, the fault is reported, and nothing else changes.
    let mut dataset = Dataset::new();
    let result = write_service::write("<ex:a> <ex:p> <ex:b> .\n<ex:a <ex:p> <ex:b> .\n", &mut dataset);
    let err = result.unwrap_err();
    assert_eq!(err.line, 2);
    assert_eq!(err.message, "Unexpected character .");
    assert_eq!(dataset.len(), 1);
    let kept = Quad::new(
        Identifier::IRI(IRI::new("ex:a".to_string())),
        IRI::new("ex:p".to_string()),
        Node::IRI(IRI::new("ex:b".to_string())),
        None,
    );
    assert!(dataset.contains(&kept));
}

#[test]
fn write_on_malformed_first_line_changes_nothing() {
    let mut dataset = Dataset::new();
    let result = write_service::write("nonsense\n", &mut dataset);
    assert!(result.is_err());
    assert_eq!(dataset.len(), 0);
}

#[test]
fn read_without_constraints_returns_everything() {
    let mut dataset = Dataset::new();
    write_service::write("<ex:a> <ex:p> <ex:b> .\n<ex:b> <ex:p> <ex:a> .\n", &mut dataset).unwrap();
    let quads = read(&no_params(), &dataset).unwrap();
    assert_eq!(quads.len(), 2);
}

#[test]
fn read_filters_by_parsed_terms() {
    let mut dataset = Dataset::new();
    write_service::write(
        "<ex:a> <ex:p> <ex:b> .\n<ex:b> <ex:p> <ex:a> .\n<ex:a> <ex:q> \"v\" <ex:g> .\n",
        &mut dataset,
    )
    .unwrap();

    let mut params = no_params();
    params.subject = Some("<ex:a>".to_string());
    let quads = read(&params, &dataset).unwrap();
    assert_eq!(quads.len(), 2);

    let mut params = no_params();
    params.subject = Some("<ex:a>".to_string());
    params.predicate = Some("<ex:q>".to_string());
    let quads = read(&params, &dataset).unwrap();
    assert_eq!(quads.len(), 1);

    let mut params = no_params();
    params.object = Some("\"v\"".to_string());
    let quads = read(&params, &dataset).unwrap();
    assert_eq!(quads.len(), 1);

    // A present context parameter names one graph.
    let mut params = no_params();
    params.context = Some("<ex:g>".to_string());
    let quads = read(&params, &dataset).unwrap();
    assert_eq!(quads.len(), 1);
}

#[test]
fn read_reports_malformed_parameters() {
    let dataset = Dataset::new();
    let mut params = no_params();
    params.subject = Some("oops".to_string());
    assert_eq!(read(&params, &dataset).unwrap_err(), "Unexpected character o");

    let mut params = no_params();
    params.predicate = Some("".to_string());
    assert_eq!(read(&params, &dataset).unwrap_err(), "Unexpected EOF");
}

#[test]
fn read_on_empty_dataset_succeeds() {
    let dataset = Dataset::new();
    let quads = read(&no_params(), &dataset).unwrap();
    assert!(quads.is_empty());
}

#[test]
fn match_context_filter_states() {
    let mut dataset = Dataset::new();
    write_service::write("<ex:a> <ex:p> <ex:b> .\n<ex:a> <ex:p> <ex:c> <ex:g> .\n", &mut dataset).unwrap();
    let unconstrained = dataset.match_quads(None, None, None, &ContextFilter::Unconstrained);
    assert_eq!(unconstrained.len(), 2);
    let default_only = dataset.match_quads(None, None, None, &ContextFilter::DefaultGraphOnly);
    assert_eq!(default_only.len(), 1);
    let named = dataset.match_quads(
        None,
        None,
        None,
        &ContextFilter::NamedGraph(Identifier::IRI(IRI::new("ex:g".to_string()))),
    );
    assert_eq!(named.len(), 1);
    assert_ne!(default_only[0], named[0]);
}
