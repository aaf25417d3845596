//! IRI namespaces: a stored prefix from which full IRIs are minted by
//! appending a local name.

use vstd::prelude::*;
use vstd::string::StringExecFns;
use crate::term::IRI;

verus! {

/// A namespace prefix, e.g. `http://www.w3.org/2001/XMLSchema#`.
#[derive(Debug, Eq, Hash)]
pub struct Namespace {
    address: String,
}

impl View for Namespace {
    type V = Seq<char>;

    closed spec fn view(&self) -> Seq<char> {
        self.address@
    }
}

impl Namespace {
    /// A namespace with the given prefix.
    pub fn new(address: String) -> (r: Namespace)
        ensures
            r@ == address@,
    {
        Namespace { address }
    }

    /// The IRI obtained by appending `name` to the prefix.
    pub fn iri(&self, name: &str) -> (r: IRI)
        ensures
            r@ == self@ + name@,
    {
        let value = self.address.clone().concat(name);
        IRI::new(value)
    }
}

impl Clone for Namespace {
    fn clone(&self) -> (r: Namespace)
        ensures
            r == *self,
    {
        Namespace { address: self.address.clone() }
    }
}

impl PartialEq for Namespace {
    fn eq(&self, other: &Namespace) -> (r: bool) {
        self.address == other.address
    }
}

impl vstd::std_specs::cmp::PartialEqSpecImpl for Namespace {
    open spec fn obeys_eq_spec() -> bool {
        true
    }

    open spec fn eq_spec(&self, other: &Namespace) -> bool {
        self@ == other@
    }
}

/// The RDF syntax namespace.
pub fn rdf() -> (r: Namespace)
    ensures
        r@ == "http://www.w3.org/1999/02/22-rdf-syntax-ns#"@,
{
    Namespace::new(String::from_str("http://www.w3.org/1999/02/22-rdf-syntax-ns#"))
}

/// The XML Schema datatype namespace.
pub fn xsd() -> (r: Namespace)
    ensures
        r@ == "http://www.w3.org/2001/XMLSchema#"@,
{
    Namespace::new(String::from_str("http://www.w3.org/2001/XMLSchema#"))
}

/// The `xsd:string` datatype IRI, the default datatype of plain literals.
pub open spec fn xsd_string() -> Seq<char> {
    "http://www.w3.org/2001/XMLSchema#string"@
}

/// The `xsd:string` datatype IRI as a term.
pub fn xsd_string_iri() -> (r: IRI)
    ensures
        r@ == xsd_string(),
{
    IRI::new(String::from_str("http://www.w3.org/2001/XMLSchema#string"))
}

} // verus!
