//! RDF term model: IRIs, blank nodes, literals, and the two closed unions
//! (`Node` for object positions, `Identifier` for subject/graph positions).
//!
//! Every term is a plain value; equality is structural over the underlying
//! strings, which is also what each type's view (`@`) exposes to contracts.

use vstd::prelude::*;

verus! {

/// An absolute resource identifier, stored verbatim; identity is by exact
/// string value, with no syntax validation.
#[derive(Debug, Eq, Hash)]
pub struct IRI {
    pub value: String,
}

impl View for IRI {
    type V = Seq<char>;

    open spec fn view(&self) -> Seq<char> {
        self.value@
    }
}

impl IRI {
    /// Wraps the given string; always succeeds.
    pub fn new(value: String) -> (r: IRI)
        ensures
            r@ == value@,
    {
        IRI { value }
    }
}

impl Clone for IRI {
    fn clone(&self) -> (r: IRI)
        ensures
            r == *self,
    {
        IRI { value: self.value.clone() }
    }
}

impl PartialEq for IRI {
    fn eq(&self, other: &IRI) -> (r: bool) {
        self.value == other.value
    }
}

impl vstd::std_specs::cmp::PartialEqSpecImpl for IRI {
    open spec fn obeys_eq_spec() -> bool {
        true
    }

    open spec fn eq_spec(&self, other: &IRI) -> bool {
        self@ == other@
    }
}

/// A label naming an anonymous resource. Two blank nodes are equal iff their
/// labels are equal: identity is purely label-based.
#[derive(Debug, Eq, Hash)]
pub struct BlankNode {
    pub value: String,
}

impl View for BlankNode {
    type V = Seq<char>;

    open spec fn view(&self) -> Seq<char> {
        self.value@
    }
}

/// Relies on `uuid::Uuid::new_v4` and its `Display` impl: a freshly drawn
/// random identifier rendered in the 36-character hyphenated form (lower-case
/// hex digits and hyphens, so never a space). The value depends on the
/// process-wide randomness source, so nothing is promised about which string
/// comes back.
#[verifier::external_body]
fn generate_blank_node_id() -> (r: String)
    ensures
        r@.len() == 36,
        forall|i: int| 0 <= i < r@.len() ==> r@[i] != ' ',
{
    uuid::Uuid::new_v4().to_string()
}

impl BlankNode {
    /// A fresh blank node with a process-unique random label (collision odds
    /// are negligible). The label never contains a space.
    pub fn new() -> (r: BlankNode)
        ensures
            r@.len() == 36,
            forall|i: int| 0 <= i < r@.len() ==> r@[i] != ' ',
    {
        BlankNode { value: generate_blank_node_id() }
    }

    /// Adopts an explicit label, e.g. one recovered from parsed `_:label`
    /// text.
    pub fn from_value(value: String) -> (r: BlankNode)
        ensures
            r@ == value@,
    {
        BlankNode { value }
    }
}

impl Clone for BlankNode {
    fn clone(&self) -> (r: BlankNode)
        ensures
            r == *self,
    {
        BlankNode { value: self.value.clone() }
    }
}

impl PartialEq for BlankNode {
    fn eq(&self, other: &BlankNode) -> (r: bool) {
        self.value == other.value
    }
}

impl vstd::std_specs::cmp::PartialEqSpecImpl for BlankNode {
    open spec fn obeys_eq_spec() -> bool {
        true
    }

    open spec fn eq_spec(&self, other: &BlankNode) -> bool {
        self@ == other@
    }
}

/// The mathematical value of a [`Literal`]: lexical form, datatype IRI and
/// optional language tag.
pub struct LiteralV {
    pub value: Seq<char>,
    pub datatype: Seq<char>,
    pub language: Option<Seq<char>>,
}

/// View of an optional string as an optional character sequence.
pub open spec fn opt_str_view(o: Option<String>) -> Option<Seq<char>> {
    match o {
        Option::Some(s) => Option::Some(s@),
        Option::None => Option::None,
    }
}

/// A typed, optionally language-tagged scalar value; equality is structural
/// over all three fields.
#[derive(Debug, Eq, Hash)]
pub struct Literal {
    pub value: String,
    pub datatype: IRI,
    pub language: Option<String>,
}

impl View for Literal {
    type V = LiteralV;

    open spec fn view(&self) -> LiteralV {
        LiteralV {
            value: self.value@,
            datatype: self.datatype@,
            language: opt_str_view(self.language),
        }
    }
}

impl Literal {
    /// Builds a literal; an absent datatype defaults to `xsd:string`. The
    /// language tag is stored as given, without consistency checking.
    pub fn new(value: String, datatype: Option<IRI>, language: Option<String>) -> (r: Literal)
        ensures
            r@.value == value@,
            r@.datatype == (match datatype {
                Option::Some(d) => d@,
                Option::None => crate::namespace::xsd_string(),
            }),
            r@.language == opt_str_view(language),
    {
        let datatype_iri = match datatype {
            Option::Some(d) => d,
            Option::None => crate::namespace::xsd_string_iri(),
        };
        Literal { value, datatype: datatype_iri, language }
    }
}

impl Clone for Literal {
    fn clone(&self) -> (r: Literal)
        ensures
            r == *self,
    {
        Literal {
            value: self.value.clone(),
            datatype: self.datatype.clone(),
            language: match &self.language {
                Option::Some(s) => Option::Some(s.clone()),
                Option::None => Option::None,
            },
        }
    }
}

/// Equality of optional strings, by content.
fn opt_string_eq(a: &Option<String>, b: &Option<String>) -> (r: bool)
    ensures
        r == (opt_str_view(*a) == opt_str_view(*b)),
{
    match (a, b) {
        (Option::Some(x), Option::Some(y)) => *x == *y,
        (Option::None, Option::None) => true,
        _ => false,
    }
}

impl PartialEq for Literal {
    fn eq(&self, other: &Literal) -> (r: bool) {
        proof {
            lemma_literal_identity(self@, other@);
        }
        let value_eq = self.value == other.value;
        let datatype_eq = self.datatype == other.datatype;
        let language_eq = opt_string_eq(&self.language, &other.language);
        value_eq && datatype_eq && language_eq
    }
}

impl vstd::std_specs::cmp::PartialEqSpecImpl for Literal {
    open spec fn obeys_eq_spec() -> bool {
        true
    }

    open spec fn eq_spec(&self, other: &Literal) -> bool {
        self@ == other@
    }
}

/// The mathematical value of a [`Node`].
pub enum NodeV {
    IRI(Seq<char>),
    BlankNode(Seq<char>),
    Literal(LiteralV),
}

/// Any value that may stand in the object position of a quad.
#[derive(Debug, Eq, Hash)]
pub enum Node {
    IRI(IRI),
    BlankNode(BlankNode),
    Literal(Literal),
}

impl View for Node {
    type V = NodeV;

    open spec fn view(&self) -> NodeV {
        match self {
            Node::IRI(iri) => NodeV::IRI(iri@),
            Node::BlankNode(b) => NodeV::BlankNode(b@),
            Node::Literal(l) => NodeV::Literal(l@),
        }
    }
}

impl Clone for Node {
    fn clone(&self) -> (r: Node)
        ensures
            r == *self,
    {
        match self {
            Node::IRI(iri) => Node::IRI(iri.clone()),
            Node::BlankNode(b) => Node::BlankNode(b.clone()),
            Node::Literal(l) => Node::Literal(l.clone()),
        }
    }
}

impl PartialEq for Node {
    fn eq(&self, other: &Node) -> (r: bool) {
        match (self, other) {
            (Node::IRI(a), Node::IRI(b)) => a == b,
            (Node::BlankNode(a), Node::BlankNode(b)) => a == b,
            (Node::Literal(a), Node::Literal(b)) => a == b,
            _ => false,
        }
    }
}

impl vstd::std_specs::cmp::PartialEqSpecImpl for Node {
    open spec fn obeys_eq_spec() -> bool {
        true
    }

    open spec fn eq_spec(&self, other: &Node) -> bool {
        self@ == other@
    }
}

/// The mathematical value of an [`Identifier`].
pub enum IdentifierV {
    IRI(Seq<char>),
    BlankNode(Seq<char>),
}

/// Any value that may stand in the subject or graph-label position of a quad;
/// literals are excluded there.
#[derive(Debug, Eq, Hash)]
pub enum Identifier {
    IRI(IRI),
    BlankNode(BlankNode),
}

impl View for Identifier {
    type V = IdentifierV;

    open spec fn view(&self) -> IdentifierV {
        match self {
            Identifier::IRI(iri) => IdentifierV::IRI(iri@),
            Identifier::BlankNode(b) => IdentifierV::BlankNode(b@),
        }
    }
}

impl Clone for Identifier {
    fn clone(&self) -> (r: Identifier)
        ensures
            r == *self,
    {
        match self {
            Identifier::IRI(iri) => Identifier::IRI(iri.clone()),
            Identifier::BlankNode(b) => Identifier::BlankNode(b.clone()),
        }
    }
}

impl PartialEq for Identifier {
    fn eq(&self, other: &Identifier) -> (r: bool) {
        match (self, other) {
            (Identifier::IRI(a), Identifier::IRI(b)) => a == b,
            (Identifier::BlankNode(a), Identifier::BlankNode(b)) => a == b,
            _ => false,
        }
    }
}

impl vstd::std_specs::cmp::PartialEqSpecImpl for Identifier {
    open spec fn obeys_eq_spec() -> bool {
        true
    }

    open spec fn eq_spec(&self, other: &Identifier) -> bool {
        self@ == other@
    }
}

impl From<IRI> for Node {
    fn from(value: IRI) -> (r: Node)
        ensures
            r == Node::IRI(value),
    {
        Node::IRI(value)
    }
}

impl vstd::std_specs::convert::FromSpecImpl<IRI> for Node {
    open spec fn obeys_from_spec() -> bool {
        true
    }

    open spec fn from_spec(v: IRI) -> Node {
        Node::IRI(v)
    }
}

impl From<BlankNode> for Node {
    fn from(value: BlankNode) -> (r: Node)
        ensures
            r == Node::BlankNode(value),
    {
        Node::BlankNode(value)
    }
}

impl vstd::std_specs::convert::FromSpecImpl<BlankNode> for Node {
    open spec fn obeys_from_spec() -> bool {
        true
    }

    open spec fn from_spec(v: BlankNode) -> Node {
        Node::BlankNode(v)
    }
}

impl From<Literal> for Node {
    fn from(value: Literal) -> (r: Node)
        ensures
            r == Node::Literal(value),
    {
        Node::Literal(value)
    }
}

impl vstd::std_specs::convert::FromSpecImpl<Literal> for Node {
    open spec fn obeys_from_spec() -> bool {
        true
    }

    open spec fn from_spec(v: Literal) -> Node {
        Node::Literal(v)
    }
}

impl From<IRI> for Identifier {
    fn from(value: IRI) -> (r: Identifier)
        ensures
            r == Identifier::IRI(value),
    {
        Identifier::IRI(value)
    }
}

impl vstd::std_specs::convert::FromSpecImpl<IRI> for Identifier {
    open spec fn obeys_from_spec() -> bool {
        true
    }

    open spec fn from_spec(v: IRI) -> Identifier {
        Identifier::IRI(v)
    }
}

impl From<BlankNode> for Identifier {
    fn from(value: BlankNode) -> (r: Identifier)
        ensures
            r == Identifier::BlankNode(value),
    {
        Identifier::BlankNode(value)
    }
}

impl vstd::std_specs::convert::FromSpecImpl<BlankNode> for Identifier {
    open spec fn obeys_from_spec() -> bool {
        true
    }

    open spec fn from_spec(v: BlankNode) -> Identifier {
        Identifier::BlankNode(v)
    }
}

/// Literal identity is exactly field-by-field identity: the same lexical form
/// under different datatypes, or under different language tags, makes
/// different literals.
pub proof fn lemma_literal_identity(a: LiteralV, b: LiteralV)
    ensures
        (a == b) <==> (a.value == b.value && a.datatype == b.datatype && a.language == b.language),
{
    if a.value == b.value && a.datatype == b.datatype && a.language == b.language {
        assert(a == LiteralV { value: a.value, datatype: a.datatype, language: a.language });
        assert(b == LiteralV { value: a.value, datatype: a.datatype, language: a.language });
    }
}

} // verus!
