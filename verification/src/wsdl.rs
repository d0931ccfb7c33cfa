//! The operation directory: the projection of a service description
//! document into a read-only mapping from operation name to endpoint URL.

use vstd::prelude::*;
use crate::rpser::xml::{Element, XMLNode, ElemV, NodeV, spec_descend, spec_attr, spec_path,
    lemma_spec_path_index, view_attrs, lemma_view_attrs_index, attr_from,
    lemma_view_children_index, view_children};
use crate::strings::str_eq;
use crate::rpser::wire::{spec_parse_document, parse_document};

verus! {

broadcast use vstd::std_specs::vec::group_vec_axioms;

/// The directory: operation names with their endpoint URL, in document
/// order; lookup takes the first match.
#[derive(Debug, PartialEq)]
pub struct Wsdl {
    pub operations: Vec<(String, String)>,
}

impl View for Wsdl {
    type V = Seq<(Seq<char>, Seq<char>)>;

    open spec fn view(&self) -> Seq<(Seq<char>, Seq<char>)> {
        view_attrs(self.operations@)
    }
}

/// The endpoint URL of the description: the `location` attribute of the
/// element at `service`/`port`/`address`, or empty when absent.
pub open spec fn spec_location(doc: ElemV) -> Seq<char> {
    match spec_descend(doc, seq!["service"@, "port"@, "address"@]) {
        Some(NodeV::Elem(a)) => match spec_attr(a, "location"@) {
            Some(u) => u,
            None => Seq::empty(),
        },
        _ => Seq::empty(),
    }
}

/// The operation entries: each child element of the first `binding` element
/// that is named `operation` and carries a `name` attribute, mapped to the
/// endpoint.
pub open spec fn op_entries(ch: Seq<NodeV>, i: int, loc: Seq<char>) -> Seq<(Seq<char>, Seq<char>)>
    decreases ch.len() - i,
{
    if i < 0 || i >= ch.len() {
        Seq::empty()
    } else {
        let rest = op_entries(ch, i + 1, loc);
        match ch[i] {
            NodeV::Elem(c) => if c.name == "operation"@ && spec_attr(c, "name"@) is Some {
                seq![(spec_attr(c, "name"@)->Some_0, loc)] + rest
            } else {
                rest
            },
            NodeV::Text(_) => rest,
        }
    }
}

/// The whole projection of a description document.
pub open spec fn spec_wsdl_of(doc: ElemV) -> Seq<(Seq<char>, Seq<char>)> {
    match spec_descend(doc, seq!["binding"@]) {
        Some(NodeV::Elem(b)) => op_entries(b.children, 0, spec_location(doc)),
        _ => Seq::empty(),
    }
}

impl Wsdl {
    /// A directory from explicit entries.
    pub fn from_pairs(operations: Vec<(String, String)>) -> (r: Wsdl)
        ensures
            r@ == view_attrs(operations@),
    {
        Wsdl { operations }
    }

    /// Build the directory once from a fetched service description.
    pub fn from_document(doc: &Element) -> (r: Wsdl)
        ensures
            r@ == spec_wsdl_of(doc@),
    {
        let location = read_location(doc);
        let bpath: [&str; 1] = ["binding"];
        let binding = doc.get_at_path(bpath.as_slice());
        proof {
            assert(bpath@.len() == 1);
            assert(bpath@[0]@ == "binding"@);
            lemma_spec_path_index(bpath@);
            assert(spec_path(bpath@) =~= seq!["binding"@]);
        }
        match binding {
            Ok(XMLNode::Element(b)) => {
                let ghost chv = view_children(b.children@);
                let ghost locv = location@;
                proof {
                    lemma_view_children_index(b.children@);
                }
                let mut ops: Vec<(String, String)> = Vec::new();
                let mut i: usize = 0;
                while i < b.children.len()
                    invariant
                        i <= b.children@.len(),
                        chv == view_children(b.children@),
                        chv.len() == b.children@.len(),
                        locv == location@,
                        forall|t: int|
                            0 <= t < b.children@.len() ==> chv[t] == crate::rpser::xml::view_node(
                                b.children@[t],
                            ),
                        view_attrs(ops@) + op_entries(chv, i as int, locv) == op_entries(
                            chv,
                            0,
                            locv,
                        ),
                    decreases b.children@.len() - i,
                {
                    match &b.children[i] {
                        XMLNode::Element(c) => {
                            if str_eq(c.name.as_str(), "operation") {
                                match c.get_attr("name") {
                                    Some(n) => {
                                        let ghost prevops = ops@;
                                        ops.push((n, location.clone()));
                                        proof {
                                            lemma_view_attrs_index(prevops);
                                            lemma_view_attrs_index(ops@);
                                            assert(view_attrs(ops@) =~= view_attrs(prevops).push(
                                                (ops@[ops@.len() - 1].0@, locv),
                                            ));
                                            assert(view_attrs(ops@) + op_entries(
                                                chv,
                                                i + 1,
                                                locv,
                                            ) =~= op_entries(chv, 0, locv));
                                        }
                                    },
                                    None => {},
                                }
                            }
                        },
                        XMLNode::Text(_) => {},
                    }
                    i += 1;
                }
                proof {
                    assert(op_entries(chv, b.children@.len() as int, locv)
                        =~= Seq::<(Seq<char>, Seq<char>)>::empty());
                    assert(view_attrs(ops@) =~= op_entries(chv, 0, locv));
                }
                Wsdl { operations: ops }
            },
            _ => {
                let r = Wsdl { operations: Vec::new() };
                proof {
                    assert(r@ =~= spec_wsdl_of(doc@));
                }
                r
            },
        }
    }

    /// Resolve an operation name to its endpoint, exact match, first entry
    /// wins.
    pub fn endpoint(&self, name: &str) -> (r: Option<String>)
        ensures
            match r {
                Some(u) => attr_from(self@, name@, 0) == Some(u@),
                None => attr_from(self@, name@, 0) is None,
            },
    {
        let ghost ov = self@;
        proof {
            lemma_view_attrs_index(self.operations@);
        }
        let mut i: usize = 0;
        while i < self.operations.len()
            invariant
                i <= self.operations@.len(),
                ov == view_attrs(self.operations@),
                ov.len() == self.operations@.len(),
                forall|t: int|
                    0 <= t < self.operations@.len() ==> ov[t] == (
                        self.operations@[t].0@,
                        self.operations@[t].1@,
                    ),
                attr_from(ov, name@, 0) == attr_from(ov, name@, i as int),
            decreases self.operations@.len() - i,
        {
            if str_eq(self.operations[i].0.as_str(), name) {
                return Some(self.operations[i].1.clone());
            }
            i += 1;
        }
        None
    }
}

/// Read the endpoint URL out of the description, empty when absent.
fn read_location(doc: &Element) -> (r: String)
    ensures
        r@ == spec_location(doc@),
{
    let path: [&str; 3] = ["service", "port", "address"];
    proof {
        lemma_spec_path_index(path@);
        assert(spec_path(path@) =~= seq!["service"@, "port"@, "address"@]);
    }
    match doc.get_at_path(path.as_slice()) {
        Ok(XMLNode::Element(a)) => match a.get_attr("location") {
            Some(u) => u,
            None => String::new(),
        },
        _ => String::new(),
    }
}

impl Wsdl {
    /// Build the directory from the raw service description text: absent
    /// exactly when the text does not parse as a wire document.
    pub fn from_text(text: &str) -> (r: Option<Wsdl>)
        ensures
            match r {
                Some(w) => {
                    &&& spec_parse_document(text@) matches Some(d)
                    &&& w@ == spec_wsdl_of(d)
                },
                None => spec_parse_document(text@) is None,
            },
    {
        match parse_document(text) {
            Some(doc) => Some(Wsdl::from_document(&doc)),
            None => None,
        }
    }
}

} // verus!
