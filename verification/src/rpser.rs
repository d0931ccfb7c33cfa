//! Remote procedure call serialization: the envelope codec and the typed
//! response.

pub mod wire;
pub mod xml;

use vstd::prelude::*;
use crate::rpser::xml::{Element, XMLNode, ElemV, NodeV, elems_of, lemma_elems_of_index,
    first_elem_match, spec_get_text, spec_attr, view_elem, Error as XmlError,
    ErrorV as XmlErrorV};
use crate::rpser::wire::{render_document, spec_parse_document, parse_document};
use crate::rpser::xml::{spec_descend, spec_path, lemma_spec_path_index};

verus! {

broadcast use vstd::std_specs::vec::group_vec_axioms;

/// A named remote call with its ordered parameter sub-trees.
#[derive(Debug, PartialEq)]
pub struct Method {
    pub name: String,
    pub args: Vec<Element>,
}

/// Mathematical model of a call: the name and the parameter sub-trees.
#[verifier::ext_equal]
pub struct MethodV {
    pub name: Seq<char>,
    pub args: Seq<NodeV>,
}

impl View for Method {
    type V = MethodV;

    open spec fn view(&self) -> MethodV {
        MethodV { name: self.name@, args: elems_of(self.args@) }
    }
}

/// The envelope tree for one outbound call: a fixed envelope/header/body
/// skeleton, the body's sole child named after the method and holding the
/// parameters in order, with the endpoint as the method element's namespace.
pub open spec fn spec_envelope(m: MethodV, url: Seq<char>) -> ElemV {
    ElemV {
        name: "soapenv:Envelope"@,
        attrs: seq![
            ("xmlns:soapenv"@, "http://schemas.xmlsoap.org/soap/envelope/"@),
            ("xmlns:xsi"@, "http://www.w3.org/2001/XMLSchema-instance"@),
            ("xmlns:xsd"@, "http://www.w3.org/2001/XMLSchema"@),
        ],
        children: seq![
            NodeV::Elem(
                ElemV {
                    name: "soapenv:Header"@,
                    attrs: Seq::empty(),
                    children: Seq::empty(),
                },
            ),
            NodeV::Elem(
                ElemV {
                    name: "soapenv:Body"@,
                    attrs: Seq::empty(),
                    children: seq![
                        NodeV::Elem(ElemV { name: m.name, attrs: seq![("xmlns"@, url)], children: m.args }),
                    ],
                },
            ),
        ],
    }
}

impl Method {
    /// A call with no parameters yet.
    pub fn new(name: &str) -> (r: Method)
        ensures
            r@ == (MethodV { name: name@, args: Seq::empty() }),
    {
        let r = Method { name: name.to_owned(), args: Vec::new() };
        proof {
            lemma_elems_of_index(r.args@);
            assert(r@ =~= (MethodV { name: name@, args: Seq::empty() }));
        }
        r
    }

    /// Append one parameter sub-tree; order is kept, because the remote
    /// service binds parameters by position.
    pub fn with(self, arg: Element) -> (r: Method)
        ensures
            r@ == (MethodV { name: self@.name, args: self@.args.push(NodeV::Elem(arg@)) }),
    {
        let ghost prev = self@;
        let ghost argv = arg@;
        let mut m = self;
        let ghost before = m.args@;
        m.args.push(arg);
        proof {
            lemma_elems_of_index(before);
            lemma_elems_of_index(m.args@);
            assert(elems_of(m.args@) =~= elems_of(before).push(NodeV::Elem(argv)));
            assert(m@ =~= (MethodV { name: prev.name, args: prev.args.push(NodeV::Elem(argv)) }));
        }
        m
    }

    /// The textual envelope for this call, bound to the given endpoint.
    pub fn as_xml(&self, url: &str) -> (r: String)
        ensures
            r@ == render_document(spec_envelope(self@, url@)),
    {
        let body_child = Element {
            name: self.name.clone(),
            attributes: vec![(("xmlns").to_owned(), url.to_owned())],
            children: elements_as_nodes(&self.args),
        };
        let envelope = Element::node("soapenv:Envelope")
            .with_attr("xmlns:soapenv", "http://schemas.xmlsoap.org/soap/envelope/")
            .with_attr("xmlns:xsi", "http://www.w3.org/2001/XMLSchema-instance")
            .with_attr("xmlns:xsd", "http://www.w3.org/2001/XMLSchema")
            .with_child(Element::node("soapenv:Header"))
            .with_child(Element::node("soapenv:Body").with_child(body_child));
        proof {
            reveal_strlit("xmlns:soapenv");
            reveal_strlit("xmlns:xsi");
            reveal_strlit("xmlns:xsd");
            let k1 = "xmlns:soapenv"@;
            let v1 = "http://schemas.xmlsoap.org/soap/envelope/"@;
            let k2 = "xmlns:xsi"@;
            let v2 = "http://www.w3.org/2001/XMLSchema-instance"@;
            let k3 = "xmlns:xsd"@;
            let v3 = "http://www.w3.org/2001/XMLSchema"@;
            assert(k1.len() == 13);
            assert(k2.len() == 9);
            assert(k3.len() == 9);
            assert(k2[8] == 'i');
            assert(k3[8] == 'd');
            assert(k1 != k2 && k1 != k3 && k2 != k3);
            let a0 = Seq::<(Seq<char>, Seq<char>)>::empty();
            assert(xml::attr_index_from(a0, k1, 0) is None);
            let a1 = xml::spec_set_attr(a0, k1, v1);
            assert(a1 =~= seq![(k1, v1)]);
            assert(xml::attr_index_from(a1, k2, 1) is None);
            assert(xml::attr_index_from(a1, k2, 0) is None);
            let a2 = xml::spec_set_attr(a1, k2, v2);
            assert(a2 =~= seq![(k1, v1), (k2, v2)]);
            assert(xml::attr_index_from(a2, k3, 2) is None);
            assert(xml::attr_index_from(a2, k3, 1) is None);
            assert(xml::attr_index_from(a2, k3, 0) is None);
            let a3 = xml::spec_set_attr(a2, k3, v3);
            assert(a3 =~= seq![(k1, v1), (k2, v2), (k3, v3)]);
            xml::lemma_view_attrs_index(body_child.attributes@);
            assert(body_child@.attrs =~= seq![("xmlns"@, url@)]);
            let sp = spec_envelope(self@, url@);
            assert(envelope@.name == sp.name);
            assert(envelope@.attrs =~= sp.attrs);
            assert(envelope@.children.len() == 2);
            assert(sp.children.len() == 2);
            assert(envelope@.children[0] =~~= sp.children[0]);
            assert(envelope@.children[1] =~~= sp.children[1]);
            assert(envelope@.children =~= sp.children);
            assert(envelope@ =~= sp);
        }
        envelope.to_string()
    }
}

/// Clone a parameter list into child nodes, in order.
fn elements_as_nodes(es: &Vec<Element>) -> (r: Vec<XMLNode>)
    ensures
        xml::view_children(r@) == elems_of(es@),
{
    let mut r: Vec<XMLNode> = Vec::new();
    let mut i: usize = 0;
    while i < es.len()
        invariant
            i <= es@.len(),
            r@.len() == i as int,
            forall|k: int| 0 <= k < i ==> xml::view_node(r@[k]) == NodeV::Elem(view_elem(es@[k])),
        decreases es@.len() - i,
    {
        r.push(XMLNode::Element(es[i].clone()));
        i += 1;
    }
    proof {
        xml::lemma_view_children_index(r@);
        lemma_elems_of_index(es@);
        assert(xml::view_children(r@) =~= elems_of(es@));
    }
    r
}

/// Why a response could not be taken as a normal payload.
#[derive(Debug, PartialEq)]
pub enum RpcError {
    /// The raw text was not parseable as a wire document.
    MalformedDocument,
    /// The remote side returned a fault in place of a payload.
    Fault { fault_code: String, fault_string: String },
    /// The response document was parseable but not navigable as expected.
    Xml(XmlError),
}

/// Mathematical model of [`RpcError`].
#[verifier::ext_equal]
pub enum RpcErrorV {
    MalformedDocument,
    Fault { fault_code: Seq<char>, fault_string: Seq<char> },
    Xml(XmlErrorV),
}

pub open spec fn view_rpc_error(e: RpcError) -> RpcErrorV {
    match e {
        RpcError::MalformedDocument => RpcErrorV::MalformedDocument,
        RpcError::Fault { fault_code, fault_string } => RpcErrorV::Fault {
            fault_code: fault_code@,
            fault_string: fault_string@,
        },
        RpcError::Xml(inner) => RpcErrorV::Xml(xml::view_error(inner)),
    }
}

impl View for RpcError {
    type V = RpcErrorV;

    open spec fn view(&self) -> RpcErrorV {
        view_rpc_error(*self)
    }
}

/// A normal inbound payload: the body sub-tree, for the caller to navigate.
#[derive(Debug, PartialEq)]
pub struct Response {
    pub body: Element,
}

/// The first child that is an element, whatever its name, from `i` on.
pub open spec fn first_child_elem(children: Seq<NodeV>, i: int) -> Option<ElemV>
    decreases children.len() - i,
{
    if i < 0 || i >= children.len() {
        None
    } else {
        match children[i] {
            NodeV::Elem(e) => Some(e),
            NodeV::Text(_) => first_child_elem(children, i + 1),
        }
    }
}

/// The text of the first child element named `tag`, or empty when the child
/// or its text is missing.
pub open spec fn spec_fault_part(f: ElemV, tag: Seq<char>) -> Seq<char> {
    match first_elem_match(f.children, tag, 0) {
        Some(e) => match spec_get_text(e) {
            Some(t) => t,
            None => Seq::empty(),
        },
        None => Seq::empty(),
    }
}

/// The payload of a body: its first child element — the operation's own
/// response element — unless that child is fault-shaped, which becomes the
/// distinguished fault error; a body without a child element is refused.
pub open spec fn spec_payload_of(body: ElemV) -> Result<ElemV, RpcErrorV> {
    match first_child_elem(body.children, 0) {
        None => Err(RpcErrorV::Xml(XmlErrorV::ExpectedNotEmpty { parent: body.name })),
        Some(f) => if f.name == "Fault"@ {
            Err(
                RpcErrorV::Fault {
                    fault_code: spec_fault_part(f, "faultcode"@),
                    fault_string: spec_fault_part(f, "faultstring"@),
                },
            )
        } else {
            Ok(f)
        },
    }
}

/// Find the first child element, witnessing [`first_child_elem`].
fn find_first_elem(children: &Vec<XMLNode>) -> (r: Option<usize>)
    ensures
        match r {
            Some(j) => {
                &&& j < children@.len()
                &&& xml::view_children(children@)[j as int] matches NodeV::Elem(c)
                &&& first_child_elem(xml::view_children(children@), 0)
                    == Some(xml::view_children(children@)[j as int]->Elem_0)
            },
            None => first_child_elem(xml::view_children(children@), 0) is None,
        },
{
    let ghost chv = xml::view_children(children@);
    proof {
        xml::lemma_view_children_index(children@);
    }
    let mut i: usize = 0;
    while i < children.len()
        invariant
            i <= children@.len(),
            chv == xml::view_children(children@),
            chv.len() == children@.len(),
            forall|t: int| 0 <= t < children@.len() ==> chv[t] == xml::view_node(children@[t]),
            first_child_elem(chv, 0) == first_child_elem(chv, i as int),
        decreases children@.len() - i,
    {
        match &children[i] {
            XMLNode::Element(_) => {
                return Some(i);
            },
            XMLNode::Text(_) => {},
        }
        i += 1;
    }
    None
}

impl Response {
    /// Take a parsed body: the payload is its first child element, a
    /// fault-shaped one becoming a distinguished fault error, exactly as
    /// [`spec_payload_of`] says.
    pub fn from_body(body: Element) -> (r: Result<Response, RpcError>)
        ensures
            match r {
                Ok(resp) => spec_payload_of(body@) == Ok::<ElemV, RpcErrorV>(resp.body@),
                Err(e) => spec_payload_of(body@) == Err::<ElemV, RpcErrorV>(e@),
            },
    {
        let j = match find_first_elem(&body.children) {
            Some(j) => j,
            None => {
                return Err(RpcError::Xml(XmlError::ExpectedNotEmpty { parent: body.name }));
            },
        };
        proof {
            xml::lemma_view_children_index(body.children@);
        }
        let is_fault = match &body.children[j] {
            XMLNode::Element(f) => crate::strings::str_eq(f.name.as_str(), "Fault"),
            XMLNode::Text(_) => {
                proof {
                    assert(false);
                }
                false
            },
        };
        if is_fault {
            match &body.children[j] {
                XMLNode::Element(f) => {
                    let code = fault_part(f, "faultcode");
                    let msg = fault_part(f, "faultstring");
                    Err(RpcError::Fault { fault_code: code, fault_string: msg })
                },
                XMLNode::Text(_) => {
                    proof {
                        assert(false);
                    }
                    Err(RpcError::MalformedDocument)
                },
            }
        } else {
            let mut children = body.children;
            let node = children.remove(j);
            match node {
                XMLNode::Element(f) => Ok(Response { body: f }),
                XMLNode::Text(_) => {
                    proof {
                        assert(false);
                    }
                    Err(RpcError::MalformedDocument)
                },
            }
        }
    }
}

/// Read one part of a fault element, empty when absent.
fn fault_part(f: &Element, tag: &str) -> (r: String)
    ensures
        r@ == spec_fault_part(f@, tag@),
{
    match xml::find_child(&f.children, tag) {
        Some(j) => {
            proof {
                xml::lemma_view_children_index(f.children@);
            }
            match &f.children[j] {
                XMLNode::Element(e) => {
                    match e.get_text() {
                        Some(t) => t,
                        None => String::new(),
                    }
                },
                XMLNode::Text(_) => {
                    proof {
                        xml::lemma_view_children_index(f.children@);
                        assert(false);
                    }
                    String::new()
                },
            }
        },
        None => String::new(),
    }
}

/// What a raw response text yields: the parse, the descent to the body,
/// and the fault check, in that order, each failure distinguished.
pub open spec fn spec_from_xml(s: Seq<char>) -> Result<ElemV, RpcErrorV> {
    match spec_parse_document(s) {
        None => Err(RpcErrorV::MalformedDocument),
        Some(root) => match spec_descend(root, seq!["Body"@]) {
            None => Err(
                RpcErrorV::Xml(XmlErrorV::NotFoundAtPath { path: seq!["Body"@] }),
            ),
            Some(nd) => match nd {
                NodeV::Text(_) => Err(RpcErrorV::Xml(XmlErrorV::ExpectedElement { found: nd })),
                NodeV::Elem(body) => spec_payload_of(body),
            },
        },
    }
}

impl Response {
    /// Parse a raw response text, exactly as [`spec_from_xml`] says:
    /// unparseable text is a malformed-document error, a fault-shaped body
    /// is a fault, anything else is the body handed on for navigation.
    pub fn from_xml(text: &str) -> (r: Result<Response, RpcError>)
        ensures
            match r {
                Ok(resp) => spec_from_xml(text@) == Ok::<ElemV, RpcErrorV>(resp.body@),
                Err(e) => spec_from_xml(text@) == Err::<ElemV, RpcErrorV>(e@),
            },
    {
        let root = match parse_document(text) {
            Some(root) => root,
            None => {
                return Err(RpcError::MalformedDocument);
            },
        };
        let p: [&str; 1] = ["Body"];
        proof {
            lemma_spec_path_index(p@);
            assert(spec_path(p@) =~= seq!["Body"@]);
        }
        let node = match root.descend(p.as_slice()) {
            Ok(n) => n,
            Err(e) => {
                return Err(RpcError::Xml(e));
            },
        };
        let body = match node.into_element() {
            Ok(b) => b,
            Err(e) => {
                return Err(RpcError::Xml(e));
            },
        };
        Response::from_body(body)
    }
}

} // verus!
