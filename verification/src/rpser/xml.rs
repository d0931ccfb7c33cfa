//! The wire document tree: named elements with string attributes and ordered
//! children that are either text or nested elements, together with fallible
//! path navigation and typed leaf extraction.

use vstd::prelude::*;
use crate::strings::{str_eq, str_ends_with, spec_ends_with};
use crate::num::{NumError, spec_parse_i64, spec_parse_i32, parse_i64, parse_i32};
use crate::datetime::{DateTimeValue, datetime_parse, parse_datetime};

verus! {

broadcast use vstd::std_specs::vec::group_vec_axioms;

/// One child of an element: raw text or a nested element.
#[derive(Debug, PartialEq)]
pub enum XMLNode {
    Text(String),
    Element(Element),
}

/// A node of the wire document tree.
///
/// Attribute keys are unique per node (builders keep them so; the last write
/// to a key wins). Child order is meaningful: descent picks the first child
/// element whose name matches.
#[derive(Debug, PartialEq)]
pub struct Element {
    pub name: String,
    pub attributes: Vec<(String, String)>,
    pub children: Vec<XMLNode>,
}

/// Mathematical model of one child node.
#[verifier::ext_equal]
pub enum NodeV {
    Text(Seq<char>),
    Elem(ElemV),
}

/// Mathematical model of an element.
#[verifier::ext_equal]
pub struct ElemV {
    pub name: Seq<char>,
    pub attrs: Seq<(Seq<char>, Seq<char>)>,
    pub children: Seq<NodeV>,
}

pub open spec fn view_node(n: XMLNode) -> NodeV
    decreases n,
{
    match n {
        XMLNode::Text(s) => NodeV::Text(s@),
        XMLNode::Element(e) => NodeV::Elem(view_elem(e)),
    }
}

pub open spec fn view_children(ns: Seq<XMLNode>) -> Seq<NodeV>
    decreases ns,
{
    if ns.len() == 0 {
        Seq::empty()
    } else {
        seq![view_node(ns[0])] + view_children(ns.drop_first())
    }
}

pub open spec fn view_attrs(ps: Seq<(String, String)>) -> Seq<(Seq<char>, Seq<char>)> {
    Seq::new(ps.len(), |i: int| (ps[i].0@, ps[i].1@))
}

pub open spec fn view_elem(e: Element) -> ElemV
    decreases e,
{
    ElemV {
        name: e.name@,
        attrs: view_attrs(e.attributes@),
        children: view_children(e.children@),
    }
}

impl View for XMLNode {
    type V = NodeV;

    open spec fn view(&self) -> NodeV {
        view_node(*self)
    }
}

impl View for Element {
    type V = ElemV;

    open spec fn view(&self) -> ElemV {
        view_elem(*self)
    }
}

/// The view of a child sequence is the sequence of child views.
pub proof fn lemma_view_children_index(ns: Seq<XMLNode>)
    ensures
        view_children(ns).len() == ns.len(),
        forall|i: int| 0 <= i < ns.len() ==> view_children(ns)[i] == view_node(ns[i]),
    decreases ns,
{
    if ns.len() > 0 {
        lemma_view_children_index(ns.drop_first());
    }
}

/// The views of a sequence of strings, one by one.
pub open spec fn view_strings(ss: Seq<String>) -> Seq<Seq<char>> {
    Seq::new(ss.len(), |i: int| ss[i]@)
}

/// Length and indexing of [`view_strings`].
pub proof fn lemma_view_strings_index(ss: Seq<String>)
    ensures
        view_strings(ss).len() == ss.len(),
        forall|i: int| 0 <= i < ss.len() ==> view_strings(ss)[i] == ss[i]@,
{
}

/// Appending a child appends its view.
pub proof fn lemma_view_children_push(ns: Seq<XMLNode>, n: XMLNode)
    ensures
        view_children(ns.push(n)) == view_children(ns).push(view_node(n)),
    decreases ns,
{
    lemma_view_children_index(ns.push(n));
    lemma_view_children_index(ns);
    assert(view_children(ns.push(n)) =~= view_children(ns).push(view_node(n)));
}

impl Clone for XMLNode {
    fn clone(&self) -> (r: Self)
        ensures
            r@ == self@,
    {
        clone_node(self)
    }
}

impl Clone for Element {
    fn clone(&self) -> (r: Self)
        ensures
            r@ == self@,
    {
        clone_elem(self)
    }
}

fn clone_node(n: &XMLNode) -> (r: XMLNode)
    ensures
        view_node(r) == view_node(*n),
    decreases *n,
{
    match n {
        XMLNode::Text(s) => XMLNode::Text(s.clone()),
        XMLNode::Element(e) => XMLNode::Element(clone_elem(e)),
    }
}

fn clone_elem(e: &Element) -> (r: Element)
    ensures
        view_elem(r) == view_elem(*e),
    decreases *e,
{
    let mut attrs: Vec<(String, String)> = Vec::new();
    let mut i: usize = 0;
    while i < e.attributes.len()
        invariant
            i <= e.attributes.len(),
            attrs@.len() == i as int,
            view_attrs(attrs@) == view_attrs(e.attributes@.subrange(0, i as int)),
        decreases e.attributes.len() - i,
    {
        attrs.push((e.attributes[i].0.clone(), e.attributes[i].1.clone()));
        proof {
            let prev = attrs@.drop_last();
            assert(attrs@.len() == i + 1);
            assert(view_attrs(attrs@).len() == i + 1);
            assert forall|k: int| 0 <= k < i + 1 implies view_attrs(attrs@)[k] == view_attrs(
                e.attributes@.subrange(0, i + 1),
            )[k] by {
                if k < i {
                    assert(attrs@[k] == prev[k]);
                    assert(view_attrs(prev)[k] == view_attrs(
                        e.attributes@.subrange(0, i as int),
                    )[k]);
                }
            }
            assert(view_attrs(attrs@) =~= view_attrs(e.attributes@.subrange(0, i + 1)));
        }
        i += 1;
    }
    let mut children: Vec<XMLNode> = Vec::new();
    proof {
        lemma_view_children_index(e.children@);
    }
    let mut j: usize = 0;
    while j < e.children.len()
        invariant
            j <= e.children.len(),
            children@.len() == j as int,
            view_children(children@) == view_children(e.children@).subrange(0, j as int),
            view_children(e.children@).len() == e.children@.len(),
            forall|k: int|
                0 <= k < e.children@.len() ==> view_children(e.children@)[k] == view_node(
                    e.children@[k],
                ),
        decreases e.children.len() - j,
    {
        let ghost prev = children@;
        let cloned = clone_node(&e.children[j]);
        let ghost added = cloned;
        children.push(cloned);
        proof {
            lemma_view_children_push(prev, added);
            assert(view_children(children@) == view_children(prev).push(view_node(added)));
            assert(view_children(e.children@).subrange(0, j + 1) =~= view_children(
                e.children@,
            ).subrange(0, j as int).push(view_children(e.children@)[j as int]));
            assert(view_children(children@) == view_children(e.children@).subrange(0, j + 1));
        }
        j += 1;
    }
    proof {
        lemma_view_children_index(e.children@);
        assert(view_attrs(e.attributes@.subrange(0, e.attributes@.len() as int)) =~= view_attrs(
            e.attributes@,
        ));
        assert(view_children(e.children@).subrange(0, e.children@.len() as int) =~= view_children(
            e.children@,
        ));
    }
    let r = Element { name: e.name.clone(), attributes: attrs, children };
    proof {
        assert(view_elem(r) =~= view_elem(*e));
    }
    r
}

/// Why navigation or extraction over the wire tree failed.
#[derive(Debug, PartialEq)]
pub enum Error {
    /// No node at the requested path; carries the full requested path.
    NotFoundAtPath { path: Vec<String> },
    /// The parent element has no children at all.
    ExpectedNotEmpty { parent: String },
    /// An element was expected, but raw text was found.
    ExpectedElement { found: XMLNode },
    /// The leaf's declared wire type does not match the requested one.
    ExpectedElementWithType { name: String, expected_type: String, given: Option<String> },
    /// The leaf's text does not parse as the requested integer type.
    ParseIntError { name: String, inner: NumError },
    /// The leaf's text does not parse as a timestamp.
    ParseDateTimeError { name: String, inner: String },
}

/// Mathematical model of [`Error`].
#[verifier::ext_equal]
pub enum ErrorV {
    NotFoundAtPath { path: Seq<Seq<char>> },
    ExpectedNotEmpty { parent: Seq<char> },
    ExpectedElement { found: NodeV },
    ExpectedElementWithType { name: Seq<char>, expected_type: Seq<char>, given: Option<Seq<char>> },
    ParseIntError { name: Seq<char>, inner: NumError },
    ParseDateTimeError { name: Seq<char>, inner: Seq<char> },
}

pub open spec fn view_error(e: Error) -> ErrorV {
    match e {
        Error::NotFoundAtPath { path } => ErrorV::NotFoundAtPath { path: view_strings(path@) },
        Error::ExpectedNotEmpty { parent } => ErrorV::ExpectedNotEmpty { parent: parent@ },
        Error::ExpectedElement { found } => ErrorV::ExpectedElement { found: view_node(found) },
        Error::ExpectedElementWithType { name, expected_type, given } => ErrorV::ExpectedElementWithType {
            name: name@,
            expected_type: expected_type@,
            given: match given {
                Some(g) => Some(g@),
                None => None,
            },
        },
        Error::ParseIntError { name, inner } => ErrorV::ParseIntError { name: name@, inner },
        Error::ParseDateTimeError { name, inner } => ErrorV::ParseDateTimeError {
            name: name@,
            inner: inner@,
        },
    }
}

impl View for Error {
    type V = ErrorV;

    open spec fn view(&self) -> ErrorV {
        view_error(*self)
    }
}

// ---------------------------------------------------------------------------
// Spec-level navigation
// ---------------------------------------------------------------------------

/// The views of the path segments handed to navigation.
pub open spec fn spec_path(p: Seq<&str>) -> Seq<Seq<char>> {
    Seq::new(p.len(), |i: int| p[i]@)
}

/// Length and indexing of [`spec_path`].
pub proof fn lemma_spec_path_index(p: Seq<&str>)
    ensures
        spec_path(p).len() == p.len(),
        forall|i: int| 0 <= i < p.len() ==> spec_path(p)[i] == p[i]@,
{
}

/// The first child element named `name`, searching from position `i` on.
pub open spec fn first_elem_match(children: Seq<NodeV>, name: Seq<char>, i: int) -> Option<ElemV>
    decreases children.len() - i,
{
    if i < 0 || i >= children.len() {
        None
    } else {
        match children[i] {
            NodeV::Elem(e) => if e.name == name {
                Some(e)
            } else {
                first_elem_match(children, name, i + 1)
            },
            NodeV::Text(_) => first_elem_match(children, name, i + 1),
        }
    }
}

/// Descent through the tree: at each level, the first child element whose
/// name equals the next path segment is chosen; an empty path yields the
/// element itself.
pub open spec fn spec_descend(e: ElemV, path: Seq<Seq<char>>) -> Option<NodeV>
    decreases path.len(),
{
    if path.len() == 0 {
        Some(NodeV::Elem(e))
    } else {
        match first_elem_match(e.children, path[0], 0) {
            None => None,
            Some(c) => spec_descend(c, path.drop_first()),
        }
    }
}

// ---------------------------------------------------------------------------
// Spec-level attributes and text
// ---------------------------------------------------------------------------

/// The value of the first attribute named `key`, searching from `i` on.
pub open spec fn attr_from(
    attrs: Seq<(Seq<char>, Seq<char>)>,
    key: Seq<char>,
    i: int,
) -> Option<Seq<char>>
    decreases attrs.len() - i,
{
    if i < 0 || i >= attrs.len() {
        None
    } else if attrs[i].0 == key {
        Some(attrs[i].1)
    } else {
        attr_from(attrs, key, i + 1)
    }
}

/// The value of the attribute named `key`, if present.
pub open spec fn spec_attr(e: ElemV, key: Seq<char>) -> Option<Seq<char>> {
    attr_from(e.attrs, key, 0)
}

/// The index of the first attribute named `key`, searching from `i` on.
pub open spec fn attr_index_from(
    attrs: Seq<(Seq<char>, Seq<char>)>,
    key: Seq<char>,
    i: int,
) -> Option<int>
    decreases attrs.len() - i,
{
    if i < 0 || i >= attrs.len() {
        None
    } else if attrs[i].0 == key {
        Some(i)
    } else {
        attr_index_from(attrs, key, i + 1)
    }
}

/// Setting an attribute: the existing pair with that key (if any) is dropped
/// and the new pair appended, so the last write wins and keys stay unique.
pub open spec fn spec_set_attr(
    attrs: Seq<(Seq<char>, Seq<char>)>,
    key: Seq<char>,
    value: Seq<char>,
) -> Seq<(Seq<char>, Seq<char>)> {
    match attr_index_from(attrs, key, 0) {
        None => attrs.push((key, value)),
        Some(j) => attrs.remove(j).push((key, value)),
    }
}

/// The concatenated text of the text children, from position `i` on.
pub open spec fn texts_from(children: Seq<NodeV>, i: int) -> Seq<char>
    decreases children.len() - i,
{
    if i < 0 || i >= children.len() {
        Seq::empty()
    } else {
        match children[i] {
            NodeV::Text(t) => t + texts_from(children, i + 1),
            NodeV::Elem(_) => texts_from(children, i + 1),
        }
    }
}

/// Whether some text child exists from position `i` on.
pub open spec fn has_text_from(children: Seq<NodeV>, i: int) -> bool
    decreases children.len() - i,
{
    if i < 0 || i >= children.len() {
        false
    } else {
        match children[i] {
            NodeV::Text(_) => true,
            NodeV::Elem(_) => has_text_from(children, i + 1),
        }
    }
}

/// The concatenated text content of an element: present when at least one
/// text child exists.
pub open spec fn spec_get_text(e: ElemV) -> Option<Seq<char>> {
    if has_text_from(e.children, 0) {
        Some(texts_from(e.children, 0))
    } else {
        None
    }
}

// ---------------------------------------------------------------------------
// Builders
// ---------------------------------------------------------------------------

impl Element {
    /// Create an empty element with the given name.
    pub fn node(name: &str) -> (r: Element)
        ensures
            r@ == (ElemV { name: name@, attrs: Seq::empty(), children: Seq::empty() }),
    {
        let r = Element { name: name.to_owned(), attributes: Vec::new(), children: Vec::new() };
        proof {
            assert(view_attrs(r.attributes@) =~= Seq::<(Seq<char>, Seq<char>)>::empty());
            assert(r@ =~= (ElemV { name: name@, attrs: Seq::empty(), children: Seq::empty() }));
        }
        r
    }

    /// Replace the element's name.
    pub fn with_name(self, name: &str) -> (r: Element)
        ensures
            r@ == (ElemV { name: name@, ..self@ }),
    {
        let r = Element { name: name.to_owned(), ..self };
        proof {
            assert(r@ =~= (ElemV { name: name@, ..self@ }));
        }
        r
    }

    /// Append a text child.
    pub fn with_text(self, text: &str) -> (r: Element)
        ensures
            r@ == (ElemV { children: self@.children.push(NodeV::Text(text@)), ..self@ }),
    {
        let ghost prev = self@;
        let mut e = self;
        let ghost before = e.children@;
        e.children.push(XMLNode::Text(text.to_owned()));
        proof {
            lemma_view_children_push(before, e.children@.last());
            assert(e.children@ =~= before.push(e.children@.last()));
            assert(e@ =~= (ElemV { children: prev.children.push(NodeV::Text(text@)), ..prev }));
        }
        e
    }

    /// Append a child element.
    pub fn with_child(self, child: Element) -> (r: Element)
        ensures
            r@ == (ElemV { children: self@.children.push(NodeV::Elem(child@)), ..self@ }),
    {
        let ghost prev = self@;
        let ghost childv = child@;
        let mut e = self;
        let ghost before = e.children@;
        e.children.push(XMLNode::Element(child));
        proof {
            lemma_view_children_push(before, e.children@.last());
            assert(e.children@ =~= before.push(e.children@.last()));
            assert(e@ =~= (ElemV { children: prev.children.push(NodeV::Elem(childv)), ..prev }));
        }
        e
    }

    /// Set an attribute; the last write to a key wins.
    pub fn with_attr(self, key: &str, value: &str) -> (r: Element)
        ensures
            r@ == (ElemV { attrs: spec_set_attr(self@.attrs, key@, value@), ..self@ }),
    {
        let ghost prev = self@;
        let mut e = self;
        let mut i: usize = 0;
        let mut found: Option<usize> = None;
        while i < e.attributes.len() && found.is_none()
            invariant
                i <= e.attributes.len(),
                match found {
                    None => {
                        &&& attr_index_from(view_attrs(e.attributes@), key@, 0)
                            == attr_index_from(view_attrs(e.attributes@), key@, i as int)
                        &&& forall|k: int|
                            0 <= k < i ==> view_attrs(e.attributes@)[k].0 != key@
                    },
                    Some(j) => {
                        &&& j < e.attributes.len()
                        &&& attr_index_from(view_attrs(e.attributes@), key@, 0) == Some(j as int)
                    },
                },
            decreases e.attributes.len() - i, (if found is Some { 0int } else { 1int }),
        {
            proof {
                assert(view_attrs(e.attributes@)[i as int] == (
                    e.attributes@[i as int].0@,
                    e.attributes@[i as int].1@,
                ));
            }
            if str_eq(e.attributes[i].0.as_str(), key) {
                found = Some(i);
            } else {
                i += 1;
            }
        }
        match found {
            Some(j) => {
                let ghost oldattrs = view_attrs(e.attributes@);
                e.attributes.remove(j);
                proof {
                    assert(view_attrs(e.attributes@) =~= oldattrs.remove(j as int));
                }
            },
            None => {
                proof {
                    assert(attr_index_from(view_attrs(e.attributes@), key@, 0) is None);
                }
            },
        }
        let ghost mid = view_attrs(e.attributes@);
        e.attributes.push((key.to_owned(), value.to_owned()));
        proof {
            assert(view_attrs(e.attributes@) =~= mid.push((key@, value@)));
            assert(e@ =~= (ElemV { attrs: spec_set_attr(prev.attrs, key@, value@), ..prev }));
        }
        e
    }

    /// Append several child elements, in order.
    pub fn with_children(self, children: Vec<Element>) -> (r: Element)
        ensures
            r@ == (ElemV { children: self@.children + elems_of(children@), ..self@ }),
    {
        let ghost prev = self@;
        let ghost added = children@;
        let mut e = self;
        let mut rest = children;
        proof {
            assert(added.len() == rest.len());
        }
        let mut i: usize = 0;
        // take the elements out in order, appending each as a child
        while rest.len() > 0
            invariant
                added.len() <= usize::MAX,
                i + rest.len() == added.len(),
                rest@ == added.subrange(i as int, added.len() as int),
                view_children(e.children@) == prev.children + elems_of(added.subrange(0, i as int)),
                e.name@ == prev.name,
                view_attrs(e.attributes@) == prev.attrs,
            decreases rest.len(),
        {
            let ghost before = e.children@;
            let child = rest.remove(0);
            proof {
                lemma_elems_of_index(added);
                assert(NodeV::Elem(child@) == elems_of(added)[i as int]);
            }
            e.children.push(XMLNode::Element(child));
            proof {
                lemma_view_children_push(before, e.children@.last());
                lemma_elems_of_index(added);
                lemma_elems_of_index(added.subrange(0, i as int));
                lemma_elems_of_index(added.subrange(0, i + 1));
                assert(e.children@ =~= before.push(e.children@.last()));
                assert(rest@ =~= added.subrange(i + 1, added.len() as int));
                assert(view_children(e.children@) =~= prev.children + elems_of(
                    added.subrange(0, i + 1),
                ));
            }
            i += 1;
        }
        proof {
            assert(added.subrange(0, added.len() as int) =~= added);
            lemma_elems_of_index(added);
            assert(e@ =~= (ElemV { children: prev.children + elems_of(added), ..prev }));
        }
        e
    }

    /// Append clones of several child elements, in order.
    pub fn with_children_from_iter(self, children: &Vec<Element>) -> (r: Element)
        ensures
            r@ == (ElemV { children: self@.children + elems_of(children@), ..self@ }),
    {
        let cloned = clone_elems(children);
        self.with_children(cloned)
    }
}

/// Length and indexing of [`view_attrs`].
pub proof fn lemma_view_attrs_index(ps: Seq<(String, String)>)
    ensures
        view_attrs(ps).len() == ps.len(),
        forall|i: int| 0 <= i < ps.len() ==> view_attrs(ps)[i] == (ps[i].0@, ps[i].1@),
{
}

/// The views of a sequence of elements, each wrapped as a child node.
pub open spec fn elems_of(es: Seq<Element>) -> Seq<NodeV> {
    Seq::new(es.len(), |i: int| NodeV::Elem(view_elem(es[i])))
}

/// Length and indexing of [`elems_of`].
pub proof fn lemma_elems_of_index(es: Seq<Element>)
    ensures
        elems_of(es).len() == es.len(),
        forall|i: int| 0 <= i < es.len() ==> elems_of(es)[i] == NodeV::Elem(view_elem(es[i])),
{
}

/// Clone a vector of elements, preserving every view.
fn clone_elems(es: &Vec<Element>) -> (r: Vec<Element>)
    ensures
        elems_of(r@) == elems_of(es@),
{
    let mut r: Vec<Element> = Vec::new();
    let mut i: usize = 0;
    while i < es.len()
        invariant
            i <= es.len(),
            r@.len() == i as int,
            forall|k: int| 0 <= k < i ==> view_elem(r@[k]) == view_elem(es@[k]),
        decreases es.len() - i,
    {
        r.push(es[i].clone());
        i += 1;
    }
    proof {
        lemma_elems_of_index(r@);
        lemma_elems_of_index(es@);
        assert(elems_of(r@) =~= elems_of(es@));
    }
    r
}

// ---------------------------------------------------------------------------
// Navigation
// ---------------------------------------------------------------------------

/// The path segments from `k` on, as owned strings.
fn path_tail(path: &[&str], k: usize) -> (v: Vec<String>)
    requires
        k <= path@.len(),
    ensures
        view_strings(v@) == spec_path(path@).skip(k as int),
{
    let mut v: Vec<String> = Vec::new();
    let mut t: usize = k;
    while t < path.len()
        invariant
            k <= t <= path@.len(),
            v@.len() == t - k,
            forall|j: int| 0 <= j < v@.len() ==> v@[j]@ == path@[j + k]@,
        decreases path@.len() - t,
    {
        v.push(path[t].to_owned());
        t += 1;
    }
    proof {
        lemma_view_strings_index(v@);
        lemma_spec_path_index(path@);
        assert(view_strings(v@) =~= spec_path(path@).skip(k as int));
    }
    v
}

/// Find the first child element named `name`, if any; the result index
/// witnesses [`first_elem_match`].
pub fn find_child(children: &Vec<XMLNode>, name: &str) -> (r: Option<usize>)
    ensures
        match r {
            Some(j) => {
                &&& j < children@.len()
                &&& view_children(children@)[j as int] matches NodeV::Elem(c)
                &&& first_elem_match(view_children(children@), name@, 0)
                    == Some(view_children(children@)[j as int]->Elem_0)
            },
            None => first_elem_match(view_children(children@), name@, 0) is None,
        },
{
    let ghost chv = view_children(children@);
    proof {
        lemma_view_children_index(children@);
    }
    let mut i: usize = 0;
    while i < children.len()
        invariant
            i <= children@.len(),
            chv == view_children(children@),
            chv.len() == children@.len(),
            forall|t: int| 0 <= t < children@.len() ==> chv[t] == view_node(children@[t]),
            first_elem_match(chv, name@, 0) == first_elem_match(chv, name@, i as int),
        decreases children@.len() - i,
    {
        match &children[i] {
            XMLNode::Element(c) => {
                if str_eq(c.name.as_str(), name) {
                    proof {
                        assert(chv[i as int] == view_node(children@[i as int]));
                        assert(first_elem_match(chv, name@, i as int)
                            == Some(chv[i as int]->Elem_0));
                    }
                    return Some(i);
                }
            },
            XMLNode::Text(_) => {},
        }
        i += 1;
    }
    None
}

impl Element {
    /// Descend along `path`, consuming the tree: at each level the first
    /// child element named like the next segment is chosen; an empty path
    /// yields the element itself. On failure the error carries the full
    /// requested path.
    pub fn descend(self, path: &[&str]) -> (r: Result<XMLNode, Error>)
        ensures
            match r {
                Ok(n) => spec_descend(self@, spec_path(path@)) == Some(n@),
                Err(e) => {
                    &&& spec_descend(self@, spec_path(path@)) is None
                    &&& e@ == ErrorV::NotFoundAtPath { path: spec_path(path@) }
                },
            },
    {
        proof {
            assert(spec_path(path@).skip(0) =~= spec_path(path@));
        }
        match descend_steps(self, path, 0) {
            Ok(n) => Ok(n),
            Err(p) => Err(Error::NotFoundAtPath { path: p }),
        }
    }

    /// The first child, whatever its kind; an element without children is
    /// refused with its name.
    pub fn descend_first(self) -> (r: Result<XMLNode, Error>)
        ensures
            match r {
                Ok(n) => self@.children.len() > 0 && n@ == self@.children[0],
                Err(e) => {
                    &&& self@.children.len() == 0
                    &&& e@ == ErrorV::ExpectedNotEmpty { parent: self@.name }
                },
            },
    {
        proof {
            lemma_view_children_index(self.children@);
        }
        if self.children.len() == 0 {
            Err(Error::ExpectedNotEmpty { parent: self.name })
        } else {
            let mut children = self.children;
            let n = children.remove(0);
            Ok(n)
        }
    }

    /// Like [`Element::descend`], but non-consuming: the reached node is
    /// cloned out of the tree.
    pub fn get_at_path(&self, path: &[&str]) -> (r: Result<XMLNode, Error>)
        ensures
            match r {
                Ok(n) => spec_descend(self@, spec_path(path@)) == Some(n@),
                Err(e) => {
                    &&& spec_descend(self@, spec_path(path@)) is None
                    &&& e@ == ErrorV::NotFoundAtPath { path: spec_path(path@) }
                },
            },
    {
        proof {
            assert(spec_path(path@).skip(0) =~= spec_path(path@));
        }
        match get_steps(self, path, 0) {
            Ok(n) => Ok(n),
            Err(p) => Err(Error::NotFoundAtPath { path: p }),
        }
    }

    /// The value of the attribute named `key`, if present.
    pub fn get_attr(&self, key: &str) -> (r: Option<String>)
        ensures
            match r {
                Some(v) => spec_attr(self@, key@) == Some(v@),
                None => spec_attr(self@, key@) is None,
            },
    {
        let ghost av = view_attrs(self.attributes@);
        proof {
            lemma_view_attrs_index(self.attributes@);
        }
        let mut i: usize = 0;
        while i < self.attributes.len()
            invariant
                i <= self.attributes@.len(),
                av == view_attrs(self.attributes@),
                av.len() == self.attributes@.len(),
                forall|t: int|
                    0 <= t < self.attributes@.len() ==> av[t] == (
                        self.attributes@[t].0@,
                        self.attributes@[t].1@,
                    ),
                attr_from(av, key@, 0) == attr_from(av, key@, i as int),
            decreases self.attributes@.len() - i,
        {
            if str_eq(self.attributes[i].0.as_str(), key) {
                return Some(self.attributes[i].1.clone());
            }
            i += 1;
        }
        None
    }

    /// The concatenated text of the text children; absent when the element
    /// has no text child at all.
    pub fn get_text(&self) -> (r: Option<String>)
        ensures
            match r {
                Some(s) => spec_get_text(self@) == Some(s@),
                None => spec_get_text(self@) is None,
            },
    {
        let ghost chv = view_children(self.children@);
        proof {
            lemma_view_children_index(self.children@);
        }
        let mut acc = String::new();
        let mut found = false;
        let mut i: usize = 0;
        while i < self.children.len()
            invariant
                i <= self.children@.len(),
                chv == view_children(self.children@),
                chv.len() == self.children@.len(),
                forall|t: int| 0 <= t < self.children@.len() ==> chv[t] == view_node(
                    self.children@[t],
                ),
                texts_from(chv, 0) == acc@ + texts_from(chv, i as int),
                has_text_from(chv, 0) == (found || has_text_from(chv, i as int)),
            decreases self.children@.len() - i,
        {
            match &self.children[i] {
                XMLNode::Text(t) => {
                    acc.append(t.as_str());
                    found = true;
                },
                XMLNode::Element(_) => {},
            }
            i += 1;
        }
        proof {
            assert(texts_from(chv, self.children@.len() as int) =~= Seq::<char>::empty());
            assert(acc@ + texts_from(chv, self.children@.len() as int) =~= acc@);
        }
        if found {
            Some(acc)
        } else {
            None
        }
    }
}

/// Descent that consumes the tree; an error is the not-yet-walked tail of
/// the path, which the unwinding prepends to, so the caller gets the whole
/// requested path back.
fn descend_steps(e: Element, path: &[&str], k: usize) -> (r: Result<XMLNode, Vec<String>>)
    requires
        k <= path@.len(),
    ensures
        match r {
            Ok(n) => spec_descend(e@, spec_path(path@).skip(k as int)) == Some(n@),
            Err(p) => {
                &&& spec_descend(e@, spec_path(path@).skip(k as int)) is None
                &&& view_strings(p@) == spec_path(path@).skip(k as int)
            },
        },
    decreases path@.len() - k,
{
    let ghost tail = spec_path(path@).skip(k as int);
    proof {
        lemma_spec_path_index(path@);
    }
    if k == path.len() {
        proof {
            assert(tail.len() == 0);
        }
        return Ok(XMLNode::Element(e));
    }
    proof {
        assert(tail[0] == path@[k as int]@);
    }
    match find_child(&e.children, path[k]) {
        None => {
            proof {
                assert(first_elem_match(e@.children, tail[0], 0) is None);
            }
            Err(path_tail(path, k))
        },
        Some(j) => {
            let mut children = e.children;
            let ghost prevch = children@;
            let node = children.remove(j);
            match node {
                XMLNode::Element(c) => {
                    proof {
                        lemma_view_children_index(prevch);
                        assert(view_node(prevch[j as int]) == view_children(prevch)[j as int]);
                        assert(first_elem_match(e@.children, tail[0], 0) == Some(c@));
                        assert(tail.skip(1) =~= spec_path(path@).skip(k + 1));
                    }
                    match descend_steps(c, path, k + 1) {
                        Ok(n) => Ok(n),
                        Err(p) => {
                            let mut p2 = p;
                            let ghost pv = p2@;
                            p2.insert(0, path[k].to_owned());
                            proof {
                                lemma_view_strings_index(p2@);
                                lemma_view_strings_index(pv);
                                assert(p2@.drop_first() =~= pv);
                                assert(tail.skip(1) =~= spec_path(path@).skip(k + 1));
                                assert forall|t: int| 0 <= t < tail.len() implies view_strings(
                                    p2@,
                                )[t] == tail[t] by {
                                    if t > 0 {
                                        assert(p2@[t] == p2@.drop_first()[t - 1]);
                                        assert(view_strings(pv)[t - 1] == tail.skip(1)[t - 1]);
                                    }
                                }
                                assert(view_strings(p2@) =~= tail);
                            }
                            Err(p2)
                        },
                    }
                },
                XMLNode::Text(_) => {
                    proof {
                        lemma_view_children_index(prevch);
                        assert(view_node(prevch[j as int]) == view_children(prevch)[j as int]);
                        assert(false);
                    }
                    Err(Vec::new())
                },
            }
        },
    }
}

/// Descent by reference; the error is the not-yet-walked tail, as in
/// [`descend_steps`].
fn get_steps(e: &Element, path: &[&str], k: usize) -> (r: Result<XMLNode, Vec<String>>)
    requires
        k <= path@.len(),
    ensures
        match r {
            Ok(n) => spec_descend(e@, spec_path(path@).skip(k as int)) == Some(n@),
            Err(p) => {
                &&& spec_descend(e@, spec_path(path@).skip(k as int)) is None
                &&& view_strings(p@) == spec_path(path@).skip(k as int)
            },
        },
    decreases path@.len() - k,
{
    let ghost tail = spec_path(path@).skip(k as int);
    proof {
        lemma_spec_path_index(path@);
    }
    if k == path.len() {
        proof {
            assert(tail.len() == 0);
        }
        return Ok(XMLNode::Element(e.clone()));
    }
    proof {
        assert(tail[0] == path@[k as int]@);
    }
    match find_child(&e.children, path[k]) {
        None => {
            proof {
                assert(first_elem_match(e@.children, tail[0], 0) is None);
            }
            Err(path_tail(path, k))
        },
        Some(j) => {
            proof {
                lemma_view_children_index(e.children@);
            }
            match &e.children[j] {
                XMLNode::Element(c) => {
                    proof {
                        assert(first_elem_match(e@.children, tail[0], 0) == Some(c@));
                        assert(tail.skip(1) =~= spec_path(path@).skip(k + 1));
                    }
                    match get_steps(c, path, k + 1) {
                        Ok(n) => Ok(n),
                        Err(p) => {
                            let mut p2 = p;
                            let ghost pv = p2@;
                            p2.insert(0, path[k].to_owned());
                            proof {
                                lemma_view_strings_index(p2@);
                                lemma_view_strings_index(pv);
                                assert(p2@.drop_first() =~= pv);
                                assert(tail.skip(1) =~= spec_path(path@).skip(k + 1));
                                assert forall|t: int| 0 <= t < tail.len() implies view_strings(
                                    p2@,
                                )[t] == tail[t] by {
                                    if t > 0 {
                                        assert(p2@[t] == p2@.drop_first()[t - 1]);
                                        assert(view_strings(pv)[t - 1] == tail.skip(1)[t - 1]);
                                    }
                                }
                                assert(view_strings(p2@) =~= tail);
                            }
                            Err(p2)
                        },
                    }
                },
                XMLNode::Text(_) => {
                    proof {
                        assert(false);
                    }
                    Err(Vec::new())
                },
            }
        },
    }
}

// ---------------------------------------------------------------------------
// Typed extraction
// ---------------------------------------------------------------------------

/// The text of a leaf whose declared wire type (the `type` attribute) ends
/// with the requested type name; anything else is a type mismatch carrying
/// the declared type.
pub open spec fn spec_typed_text(e: ElemV, vt: Seq<char>) -> Result<Seq<char>, ErrorV> {
    let given = spec_attr(e, "type"@);
    let text = spec_get_text(e);
    if given is Some && text is Some && spec_ends_with(given->Some_0, vt) {
        Ok(text->Some_0)
    } else {
        Err(
            ErrorV::ExpectedElementWithType {
                name: e.name,
                expected_type: "*:"@ + vt,
                given,
            },
        )
    }
}

/// Extraction of a `string` leaf.
pub open spec fn spec_as_string(n: NodeV) -> Result<Seq<char>, ErrorV> {
    match n {
        NodeV::Elem(e) => spec_typed_text(e, "string"@),
        NodeV::Text(_) => Err(ErrorV::ExpectedElement { found: n }),
    }
}

/// Extraction of a `long` leaf.
pub open spec fn spec_as_long(n: NodeV) -> Result<i64, ErrorV> {
    match n {
        NodeV::Elem(e) => match spec_typed_text(e, "long"@) {
            Err(er) => Err(er),
            Ok(t) => match spec_parse_i64(t) {
                Ok(v) => Ok(v),
                Err(k) => Err(ErrorV::ParseIntError { name: e.name, inner: k }),
            },
        },
        NodeV::Text(_) => Err(ErrorV::ExpectedElement { found: n }),
    }
}

/// Extraction of an `int` leaf.
pub open spec fn spec_as_int(n: NodeV) -> Result<i32, ErrorV> {
    match n {
        NodeV::Elem(e) => match spec_typed_text(e, "int"@) {
            Err(er) => Err(er),
            Ok(t) => match spec_parse_i32(t) {
                Ok(v) => Ok(v),
                Err(k) => Err(ErrorV::ParseIntError { name: e.name, inner: k }),
            },
        },
        NodeV::Text(_) => Err(ErrorV::ExpectedElement { found: n }),
    }
}

/// Extraction of a `boolean` leaf: deliberately lenient, any text other
/// than the literal `true` counts as `false` rather than failing.
pub open spec fn spec_as_boolean(n: NodeV) -> Result<bool, ErrorV> {
    match n {
        NodeV::Elem(e) => match spec_typed_text(e, "boolean"@) {
            Err(er) => Err(er),
            Ok(t) => Ok(t == "true"@),
        },
        NodeV::Text(_) => Err(ErrorV::ExpectedElement { found: n }),
    }
}

/// Extraction of a `dateTime` leaf.
pub open spec fn spec_as_datetime(n: NodeV) -> Result<DateTimeValue, ErrorV> {
    match n {
        NodeV::Elem(e) => match spec_typed_text(e, "dateTime"@) {
            Err(er) => Err(er),
            Ok(t) => match datetime_parse(t) {
                Ok(v) => Ok(v),
                Err(m) => Err(ErrorV::ParseDateTimeError { name: e.name, inner: m }),
            },
        },
        NodeV::Text(_) => Err(ErrorV::ExpectedElement { found: n }),
    }
}

/// Read the text of a leaf after checking its declared wire type, exactly
/// as [`spec_typed_text`] says.
pub fn get_typed_string(element: &Element, value_type: &str) -> (r: Result<String, Error>)
    ensures
        match r {
            Ok(s) => spec_typed_text(element@, value_type@) == Ok::<Seq<char>, ErrorV>(s@),
            Err(e) => spec_typed_text(element@, value_type@) == Err::<Seq<char>, ErrorV>(e@),
        },
{
    let given = element.get_attr("type");
    let text = element.get_text();
    let ok = match (&given, &text) {
        (Some(v), Some(_)) => str_ends_with(v.as_str(), value_type),
        _ => false,
    };
    if ok {
        match text {
            Some(t) => Ok(t),
            None => {
                proof {
                    assert(false);
                }
                Err(Error::ExpectedNotEmpty { parent: String::new() })
            },
        }
    } else {
        let et = ("*:").to_owned().concat(value_type);
        Err(
            Error::ExpectedElementWithType {
                name: element.name.clone(),
                expected_type: et,
                given,
            },
        )
    }
}

impl XMLNode {
    /// This node as an element, consuming it; raw text is refused, carried
    /// in the error.
    pub fn into_element(self) -> (r: Result<Element, Error>)
        ensures
            match r {
                Ok(el) => self@ == NodeV::Elem(el@),
                Err(e) => {
                    &&& self@ is Text
                    &&& e@ == ErrorV::ExpectedElement { found: self@ }
                },
            },
    {
        match self {
            XMLNode::Element(el) => Ok(el),
            XMLNode::Text(t) => Err(Error::ExpectedElement { found: XMLNode::Text(t) }),
        }
    }

    /// A reference to this node as an element; raw text is refused, a clone
    /// carried in the error.
    pub fn expect_element(&self) -> (r: Result<&Element, Error>)
        ensures
            match r {
                Ok(el) => self@ == NodeV::Elem(el@),
                Err(e) => {
                    &&& self@ is Text
                    &&& e@ == ErrorV::ExpectedElement { found: self@ }
                },
            },
    {
        match self {
            XMLNode::Element(el) => Ok(el),
            XMLNode::Text(_) => Err(Error::ExpectedElement { found: self.clone() }),
        }
    }

    /// The value of a `long` leaf, exactly as [`spec_as_long`] says.
    pub fn as_long(&self) -> (r: Result<i64, Error>)
        ensures
            match r {
                Ok(v) => spec_as_long(self@) == Ok::<i64, ErrorV>(v),
                Err(e) => spec_as_long(self@) == Err::<i64, ErrorV>(e@),
            },
    {
        let el = match self.expect_element() {
            Ok(el) => el,
            Err(e) => {
                return Err(e);
            },
        };
        match get_typed_string(el, "long") {
            Err(e) => Err(e),
            Ok(t) => match parse_i64(t.as_str()) {
                Ok(v) => Ok(v),
                Err(k) => Err(Error::ParseIntError { name: el.name.clone(), inner: k }),
            },
        }
    }

    /// The value of an `int` leaf, exactly as [`spec_as_int`] says.
    pub fn as_int(&self) -> (r: Result<i32, Error>)
        ensures
            match r {
                Ok(v) => spec_as_int(self@) == Ok::<i32, ErrorV>(v),
                Err(e) => spec_as_int(self@) == Err::<i32, ErrorV>(e@),
            },
    {
        let el = match self.expect_element() {
            Ok(el) => el,
            Err(e) => {
                return Err(e);
            },
        };
        match get_typed_string(el, "int") {
            Err(e) => Err(e),
            Ok(t) => match parse_i32(t.as_str()) {
                Ok(v) => Ok(v),
                Err(k) => Err(Error::ParseIntError { name: el.name.clone(), inner: k }),
            },
        }
    }

    /// The value of a `boolean` leaf: `true` exactly when the text is the
    /// literal `true`, as [`spec_as_boolean`] says.
    pub fn as_boolean(&self) -> (r: Result<bool, Error>)
        ensures
            match r {
                Ok(v) => spec_as_boolean(self@) == Ok::<bool, ErrorV>(v),
                Err(e) => spec_as_boolean(self@) == Err::<bool, ErrorV>(e@),
            },
    {
        let el = match self.expect_element() {
            Ok(el) => el,
            Err(e) => {
                return Err(e);
            },
        };
        match get_typed_string(el, "boolean") {
            Err(e) => Err(e),
            Ok(t) => Ok(str_eq(t.as_str(), "true")),
        }
    }

    /// The text of a `string` leaf, exactly as [`spec_as_string`] says.
    pub fn as_string(&self) -> (r: Result<String, Error>)
        ensures
            match r {
                Ok(v) => spec_as_string(self@) == Ok::<Seq<char>, ErrorV>(v@),
                Err(e) => spec_as_string(self@) == Err::<Seq<char>, ErrorV>(e@),
            },
    {
        let el = match self.expect_element() {
            Ok(el) => el,
            Err(e) => {
                return Err(e);
            },
        };
        get_typed_string(el, "string")
    }

    /// The instant of a `dateTime` leaf, exactly as [`spec_as_datetime`]
    /// says.
    pub fn as_datetime(&self) -> (r: Result<DateTimeValue, Error>)
        ensures
            match r {
                Ok(v) => spec_as_datetime(self@) == Ok::<DateTimeValue, ErrorV>(v),
                Err(e) => spec_as_datetime(self@) == Err::<DateTimeValue, ErrorV>(e@),
            },
    {
        let el = match self.expect_element() {
            Ok(el) => el,
            Err(e) => {
                return Err(e);
            },
        };
        match get_typed_string(el, "dateTime") {
            Err(e) => Err(e),
            Ok(t) => match parse_datetime(t.as_str()) {
                Ok(v) => Ok(v),
                Err(m) => Err(Error::ParseDateTimeError { name: el.name.clone(), inner: m }),
            },
        }
    }

    /// The raw text of this node: present exactly when the node is text.
    pub fn as_text(&self) -> (r: Option<String>)
        ensures
            match self@ {
                NodeV::Text(t) => r matches Some(s) && s@ == t,
                NodeV::Elem(_) => r is None,
            },
    {
        match self {
            XMLNode::Text(t) => Some(t.clone()),
            XMLNode::Element(_) => None,
        }
    }
}

/// Descent is exactly the repetition of "take the first matching child at
/// each level": the empty path yields the element itself, and a nonempty
/// path takes the first child element named like the head segment —
/// later siblings of the same name are skipped — and descends with the
/// tail.
pub proof fn lemma_descend_unfolds(e: ElemV, path: Seq<Seq<char>>)
    ensures
        path.len() == 0 ==> spec_descend(e, path) == Some(NodeV::Elem(e)),
        path.len() > 0 ==> spec_descend(e, path) == (match first_elem_match(
            e.children,
            path[0],
            0,
        ) {
            None => None,
            Some(c) => spec_descend(c, path.drop_first()),
        }),
{
}

} // verus!

