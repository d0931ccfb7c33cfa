//! The textual wire form of the document tree: rendering with escaping, and
//! parsing back.
//!
//! The parsed grammar covers what the wire protocol exchanges: one optional
//! leading `<?xml …?>` prolog, elements with attributes, text with the five
//! named entities and numeric character references, comments, and CDATA
//! sections. Document type declarations and processing instructions in the
//! body are not part of the grammar and make a document malformed.

use vstd::prelude::*;
use crate::rpser::xml::{Element, XMLNode, ElemV, NodeV, view_elem, view_node, view_children,
    view_attrs, lemma_view_children_index, lemma_view_attrs_index};
use crate::strings::push_char;

verus! {

broadcast use vstd::std_specs::vec::group_vec_axioms;

/// The escaped form of one character.
pub open spec fn esc_char(c: char) -> Seq<char> {
    if c == '&' {
        seq!['&', 'a', 'm', 'p', ';']
    } else if c == '<' {
        seq!['&', 'l', 't', ';']
    } else if c == '>' {
        seq!['&', 'g', 't', ';']
    } else if c == '"' {
        seq!['&', 'q', 'u', 'o', 't', ';']
    } else if c == '\'' {
        seq!['&', 'a', 'p', 'o', 's', ';']
    } else {
        seq![c]
    }
}

/// The escaped form of a text.
pub open spec fn esc_str(s: Seq<char>) -> Seq<char>
    decreases s.len(),
{
    if s.len() == 0 {
        Seq::empty()
    } else {
        esc_char(s[0]) + esc_str(s.drop_first())
    }
}

/// The rendering of an attribute list: one leading space before each pair.
pub open spec fn render_attrs(attrs: Seq<(Seq<char>, Seq<char>)>, i: int) -> Seq<char>
    decreases attrs.len() - i,
{
    if i < 0 || i >= attrs.len() {
        Seq::empty()
    } else {
        seq![' '] + attrs[i].0 + seq!['=', '"'] + esc_str(attrs[i].1) + seq!['"'] + render_attrs(
            attrs,
            i + 1,
        )
    }
}

/// The rendering of an element: attributes in order, a self-closing tag when
/// there are no children, the matching end tag otherwise.
pub open spec fn render_elem(e: ElemV) -> Seq<char>
    decreases e, 0int,
{
    if e.children.len() == 0 {
        seq!['<'] + e.name + render_attrs(e.attrs, 0) + seq!['/', '>']
    } else {
        seq!['<'] + e.name + render_attrs(e.attrs, 0) + seq!['>'] + render_nodes(e.children, 0)
            + seq!['<', '/'] + e.name + seq!['>']
    }
}

/// The rendering of one node.
pub open spec fn render_node(n: NodeV) -> Seq<char>
    decreases n, 0int,
{
    match n {
        NodeV::Text(t) => esc_str(t),
        NodeV::Elem(e) => render_elem(e),
    }
}

/// The rendering of the children from position `i` on.
pub open spec fn render_nodes(ns: Seq<NodeV>, i: int) -> Seq<char>
    decreases ns, ns.len() - i,
{
    if i < 0 || i >= ns.len() {
        Seq::empty()
    } else {
        render_node(ns[i]) + render_nodes(ns, i + 1)
    }
}

/// The document prolog put before the root element.
pub open spec fn spec_prolog() -> Seq<char> {
    "<?xml version=\"1.0\" encoding=\"UTF-8\"?>"@
}

/// A whole document: prolog, then the root element.
pub open spec fn render_document(e: ElemV) -> Seq<char> {
    spec_prolog() + render_elem(e)
}

/// Append one character's escaped form.
fn write_escaped_char(out: &mut String, c: char)
    ensures
        final(out)@ == old(out)@ + esc_char(c),
{
    if c == '&' {
        out.append("&amp;");
        proof {
            reveal_strlit("&amp;");
            assert(out@ =~= old(out)@ + esc_char(c));
        }
    } else if c == '<' {
        out.append("&lt;");
        proof {
            reveal_strlit("&lt;");
            assert(out@ =~= old(out)@ + esc_char(c));
        }
    } else if c == '>' {
        out.append("&gt;");
        proof {
            reveal_strlit("&gt;");
            assert(out@ =~= old(out)@ + esc_char(c));
        }
    } else if c == '"' {
        out.append("&quot;");
        proof {
            reveal_strlit("&quot;");
            assert(out@ =~= old(out)@ + esc_char(c));
        }
    } else if c == '\'' {
        out.append("&apos;");
        proof {
            reveal_strlit("&apos;");
            assert(out@ =~= old(out)@ + esc_char(c));
        }
    } else {
        push_char(out, c);
        proof {
            assert(out@ =~= old(out)@ + esc_char(c));
        }
    }
}

/// Append a text in escaped form.
fn write_escaped(out: &mut String, s: &str)
    ensures
        final(out)@ == old(out)@ + esc_str(s@),
{
    let n = s.unicode_len();
    let mut i: usize = 0;
    while i < n
        invariant
            i <= n,
            n == s@.len(),
            out@ == old(out)@ + esc_str(s@.subrange(0, i as int)),
        decreases n - i,
    {
        let ghost pre = out@;
        write_escaped_char(out, s.get_char(i));
        proof {
            lemma_esc_str_push(s@.subrange(0, i as int), s@[i as int]);
            assert(s@.subrange(0, i + 1) =~= s@.subrange(0, i as int).push(s@[i as int]));
            assert(out@ =~= old(out)@ + esc_str(s@.subrange(0, i + 1)));
        }
        i += 1;
    }
    proof {
        assert(s@.subrange(0, s@.len() as int) =~= s@);
    }
}

/// Escaping distributes over appending one character.
proof fn lemma_esc_str_push(s: Seq<char>, c: char)
    ensures
        esc_str(s.push(c)) == esc_str(s) + esc_char(c),
    decreases s.len(),
{
    if s.len() == 0 {
        assert(s.push(c).drop_first() =~= Seq::<char>::empty());
        assert(esc_str(Seq::<char>::empty()) == Seq::<char>::empty());
        assert(s.push(c)[0] == c);
        assert(esc_str(s.push(c)) == esc_char(c) + esc_str(Seq::<char>::empty()));
        assert(esc_str(s.push(c)) =~= esc_str(s) + esc_char(c));
    } else {
        assert(s.push(c).drop_first() =~= s.drop_first().push(c));
        lemma_esc_str_push(s.drop_first(), c);
        assert(s.push(c)[0] == s[0]);
        assert(esc_str(s.push(c)) == esc_char(s[0]) + esc_str(s.drop_first().push(c)));
        assert(esc_str(s.push(c)) =~= esc_str(s) + esc_char(c));
    }
}

/// Append an element's rendering.
fn write_elem(out: &mut String, e: &Element)
    ensures
        final(out)@ == old(out)@ + render_elem(e@),
    decreases *e,
{
    push_char(out, '<');
    out.append(e.name.as_str());
    let ghost ev = view_elem(*e);
    proof {
        lemma_view_attrs_index(e.attributes@);
    }
    let mut i: usize = 0;
    while i < e.attributes.len()
        invariant
            i <= e.attributes@.len(),
            ev == view_elem(*e),
            ev.attrs == view_attrs(e.attributes@),
            ev.attrs.len() == e.attributes@.len(),
            forall|t: int|
                0 <= t < e.attributes@.len() ==> ev.attrs[t] == (
                    e.attributes@[t].0@,
                    e.attributes@[t].1@,
                ),
            out@ + render_attrs(ev.attrs, i as int) == old(out)@ + seq!['<'] + ev.name
                + render_attrs(ev.attrs, 0),
        decreases e.attributes@.len() - i,
    {
        // append ` key="escaped value"`
        push_char(out, ' ');
        out.append(e.attributes[i].0.as_str());
        push_char(out, '=');
        push_char(out, '"');
        write_escaped(out, e.attributes[i].1.as_str());
        push_char(out, '"');
        proof {
            lemma_render_attrs_prefix(ev.attrs, i as int);
            assert(out@ + render_attrs(ev.attrs, i + 1) =~= old(out)@ + seq!['<'] + ev.name
                + render_attrs(ev.attrs, 0));
        }
        i += 1;
    }
    proof {
        lemma_render_attrs_prefix_zero(ev.attrs, e.attributes@.len() as int);
        assert(out@ =~= out@ + render_attrs(ev.attrs, e.attributes@.len() as int));
    }
    if e.children.len() == 0 {
        push_char(out, '/');
        push_char(out, '>');
        proof {
            assert(out@ =~= old(out)@ + render_elem(e@));
        }
    } else {
        push_char(out, '>');
        proof {
            lemma_view_children_index(e.children@);
        }
        let mut j: usize = 0;
        while j < e.children.len()
            invariant
                j <= e.children@.len(),
                ev == view_elem(*e),
                ev.children == view_children(e.children@),
                ev.children.len() == e.children@.len(),
                forall|t: int|
                    0 <= t < e.children@.len() ==> ev.children[t] == view_node(e.children@[t]),
                out@ + render_nodes(ev.children, j as int) == old(out)@ + seq!['<'] + ev.name
                    + render_attrs(ev.attrs, 0) + seq!['>'] + render_nodes(ev.children, 0),
            decreases e.children@.len() - j,
        {
            write_node(out, &e.children[j]);
            proof {
                lemma_render_nodes_prefix(ev.children, j as int);
                assert(out@ + render_nodes(ev.children, j + 1) =~= old(out)@ + seq!['<'] + ev.name
                    + render_attrs(ev.attrs, 0) + seq!['>'] + render_nodes(ev.children, 0));
            }
            j += 1;
        }
        proof {
            lemma_render_nodes_prefix_zero(ev.children, e.children@.len() as int);
            assert(out@ =~= out@ + render_nodes(ev.children, e.children@.len() as int));
        }
        push_char(out, '<');
        push_char(out, '/');
        out.append(e.name.as_str());
        push_char(out, '>');
        proof {
            assert(out@ =~= old(out)@ + render_elem(e@));
        }
    }
}

/// Append one node's rendering.
fn write_node(out: &mut String, n: &XMLNode)
    ensures
        final(out)@ == old(out)@ + render_node(n@),
    decreases *n,
{
    match n {
        XMLNode::Text(t) => write_escaped(out, t.as_str()),
        XMLNode::Element(e) => write_elem(out, e),
    }
}

/// The rendering from `i` on is a suffix of the whole rendering; phrased as
/// a subtraction so a loop can keep "what was written so far".
proof fn lemma_render_attrs_prefix(attrs: Seq<(Seq<char>, Seq<char>)>, i: int)
    requires
        0 <= i < attrs.len(),
    ensures
        render_attrs(attrs, i) == seq![' '] + attrs[i].0 + seq!['=', '"'] + esc_str(attrs[i].1)
            + seq!['"'] + render_attrs(attrs, i + 1),
{
}

/// The rendering of no remaining attributes is empty.
proof fn lemma_render_attrs_prefix_zero(attrs: Seq<(Seq<char>, Seq<char>)>, n: int)
    requires
        n == attrs.len(),
    ensures
        render_attrs(attrs, n) =~= Seq::<char>::empty(),
{
}

/// One node's rendering followed by the rest.
proof fn lemma_render_nodes_prefix(ns: Seq<NodeV>, i: int)
    requires
        0 <= i < ns.len(),
    ensures
        render_nodes(ns, i) == render_node(ns[i]) + render_nodes(ns, i + 1),
{
}

/// The rendering of no remaining nodes is empty.
proof fn lemma_render_nodes_prefix_zero(ns: Seq<NodeV>, n: int)
    requires
        n == ns.len(),
    ensures
        render_nodes(ns, n) =~= Seq::<char>::empty(),
{
}

impl Element {
    /// The textual wire form of this element, with the document prolog.
    pub fn to_string(&self) -> (r: String)
        ensures
            r@ == render_document(self@),
    {
        let mut out = ("<?xml version=\"1.0\" encoding=\"UTF-8\"?>").to_owned();
        write_elem(&mut out, self);
        out
    }
}

// ---------------------------------------------------------------------------
// Parsing
// ---------------------------------------------------------------------------

/// Whitespace of the wire text.
pub open spec fn is_ws(c: char) -> bool {
    c == ' ' || c == '\t' || c == '\r' || c == '\n'
}

/// A character that may stand in a tag or attribute name.
pub open spec fn is_name_char(c: char) -> bool {
    !(is_ws(c) || c == '<' || c == '>' || c == '/' || c == '=' || c == '"' || c == '\'' || c == '&'
        || c == '?' || c == '!')
}

/// The first non-whitespace position at or after `i`.
pub open spec fn sp_ws(s: Seq<char>, i: int) -> int
    decreases s.len() - i,
{
    if i < 0 || i >= s.len() {
        i
    } else if is_ws(s[i]) {
        sp_ws(s, i + 1)
    } else {
        i
    }
}

/// The end of the name-character run starting at `i`.
pub open spec fn sp_name_end(s: Seq<char>, i: int) -> int
    decreases s.len() - i,
{
    if i < 0 || i >= s.len() {
        i
    } else if is_name_char(s[i]) {
        sp_name_end(s, i + 1)
    } else {
        i
    }
}

/// The position of the first `:` at or after `i`.
pub open spec fn colon_at(n: Seq<char>, i: int) -> Option<int>
    decreases n.len() - i,
{
    if i < 0 || i >= n.len() {
        None
    } else if n[i] == ':' {
        Some(i)
    } else {
        colon_at(n, i + 1)
    }
}

/// The unqualified local part of a possibly prefixed name: what follows the
/// first `:`, or the whole name without one.
pub open spec fn local_name(n: Seq<char>) -> Seq<char> {
    match colon_at(n, 0) {
        Some(j) => n.skip(j + 1),
        None => n,
    }
}

/// The end of the run of decimal digits starting at `i`.
pub open spec fn dec_run_end(s: Seq<char>, i: int) -> int
    decreases s.len() - i,
{
    if i < 0 || i >= s.len() || !crate::num::is_dec_digit(s[i]) {
        i
    } else {
        dec_run_end(s, i + 1)
    }
}

/// `c` is a hexadecimal digit.
pub open spec fn is_hex_digit(c: char) -> bool {
    crate::num::is_dec_digit(c) || (97 <= c as u32 <= 102) || (65 <= c as u32 <= 70)
}

/// The value of one hexadecimal digit.
pub open spec fn hex_digit_val(c: char) -> int {
    if crate::num::is_dec_digit(c) {
        c as u32 - 48
    } else if 97 <= c as u32 <= 102 {
        c as u32 - 87
    } else {
        c as u32 - 55
    }
}

/// The value of a hexadecimal digit string, most significant digit first.
pub open spec fn hex_val(s: Seq<char>) -> int
    decreases s.len(),
{
    if s.len() == 0 {
        0
    } else {
        hex_val(s.drop_last()) * 16 + hex_digit_val(s.last())
    }
}

/// The end of the run of hexadecimal digits starting at `i`.
pub open spec fn hex_run_end(s: Seq<char>, i: int) -> int
    decreases s.len() - i,
{
    if i < 0 || i >= s.len() || !is_hex_digit(s[i]) {
        i
    } else {
        hex_run_end(s, i + 1)
    }
}

/// `v` is a scalar value a character can hold.
pub open spec fn valid_scalar(v: int) -> bool {
    0 <= v <= 0x10FFFF && !(0xD800 <= v <= 0xDFFF)
}

/// One character entity at `i`, with the position after it.
pub open spec fn sp_entity(s: Seq<char>, i: int) -> Option<(char, int)> {
    if i >= 0 && i + 5 <= s.len() && s[i] == '&' && s[i + 1] == 'a' && s[i + 2] == 'm' && s[i + 3]
        == 'p' && s[i + 4] == ';' {
        Some(('&', i + 5))
    } else if i >= 0 && i + 4 <= s.len() && s[i] == '&' && s[i + 1] == 'l' && s[i + 2] == 't' && s[
        i + 3
    ] == ';' {
        Some(('<', i + 4))
    } else if i >= 0 && i + 4 <= s.len() && s[i] == '&' && s[i + 1] == 'g' && s[i + 2] == 't' && s[
        i + 3
    ] == ';' {
        Some(('>', i + 4))
    } else if i >= 0 && i + 6 <= s.len() && s[i] == '&' && s[i + 1] == 'q' && s[i + 2] == 'u' && s[
        i + 3
    ] == 'o' && s[i + 4] == 't' && s[i + 5] == ';' {
        Some(('"', i + 6))
    } else if i >= 0 && i + 6 <= s.len() && s[i] == '&' && s[i + 1] == 'a' && s[i + 2] == 'p' && s[
        i + 3
    ] == 'o' && s[i + 4] == 's' && s[i + 5] == ';' {
        Some(('\'', i + 6))
    } else if i >= 0 && i + 3 < s.len() && s[i] == '&' && s[i + 1] == '#' && s[i + 2] == 'x' {
        let e = hex_run_end(s, i + 3);
        if i + 3 < e && e < s.len() && s[e] == ';' {
            let v = hex_val(s.subrange(i + 3, e));
            if valid_scalar(v) {
                Some((v as char, e + 1))
            } else {
                None
            }
        } else {
            None
        }
    } else if i >= 0 && i + 2 < s.len() && s[i] == '&' && s[i + 1] == '#' {
        let e = dec_run_end(s, i + 2);
        if i + 2 < e && e < s.len() && s[e] == ';' {
            let v = crate::num::digits_val(s.subrange(i + 2, e));
            if valid_scalar(v) {
                Some((v as char, e + 1))
            } else {
                None
            }
        } else {
            None
        }
    } else {
        None
    }
}

/// The position after the first `-->` at or after `i`.
pub open spec fn sp_comment_end(s: Seq<char>, i: int) -> Option<int>
    decreases s.len() - i,
{
    if i < 0 || i + 3 > s.len() {
        None
    } else if s[i] == '-' && s[i + 1] == '-' && s[i + 2] == '>' {
        Some(i + 3)
    } else {
        sp_comment_end(s, i + 1)
    }
}

/// The position after the first `]]>` at or after `i`.
pub open spec fn sp_cdata_end(s: Seq<char>, i: int) -> Option<int>
    decreases s.len() - i,
{
    if i < 0 || i + 3 > s.len() {
        None
    } else if s[i] == ']' && s[i + 1] == ']' && s[i + 2] == '>' {
        Some(i + 3)
    } else {
        sp_cdata_end(s, i + 1)
    }
}

/// The unescaped run up to (not including) `stop`: entities are decoded, a
/// bare `&` that starts no entity is malformed, and so is running off the
/// end before `stop`.
pub open spec fn sp_scan(s: Seq<char>, i: int, stop: char) -> Option<(Seq<char>, int)>
    decreases s.len() - i,
{
    if i < 0 || i >= s.len() {
        None
    } else if s[i] == stop {
        Some((Seq::empty(), i))
    } else if s[i] == '&' {
        match sp_entity(s, i) {
            None => None,
            Some((c, j)) => if j > i {
                match sp_scan(s, j, stop) {
                    None => None,
                    Some((t, k)) => Some((seq![c] + t, k)),
                }
            } else {
                None
            },
        }
    } else {
        match sp_scan(s, i + 1, stop) {
            None => None,
            Some((t, k)) => Some((seq![s[i]] + t, k)),
        }
    }
}

/// The attribute list from `i` on: whitespace-led `name="value"` pairs
/// until `>` or `/`, attribute names taken by their local part.
pub open spec fn sp_attrs(s: Seq<char>, i: int) -> Option<(Seq<(Seq<char>, Seq<char>)>, int)>
    decreases s.len() - i,
{
    if i < 0 {
        None
    } else {
        let j = sp_ws(s, i);
        if j < i || j >= s.len() {
            None
        } else if s[j] == '>' || s[j] == '/' {
            Some((Seq::empty(), j))
        } else {
            let k = sp_name_end(s, j);
            if k <= j {
                None
            } else if k + 1 < s.len() && s[k] == '=' && (s[k + 1] == '"' || s[k + 1] == '\'') {
                match sp_scan(s, k + 2, s[k + 1]) {
                    None => None,
                    Some((val, m)) => if m + 1 > i && m + 1 <= s.len() {
                        match sp_attrs(s, m + 1) {
                            None => None,
                            Some((rest, e2)) => Some(
                                (seq![(local_name(s.subrange(j, k)), val)] + rest, e2),
                            ),
                        }
                    } else {
                        None
                    },
                }
            } else {
                None
            }
        }
    }
}

/// One element starting at `i` (which must hold `<`): name, attributes,
/// then either a self-closing tag or content and the matching end tag.
pub open spec fn sp_element(s: Seq<char>, i: int) -> Option<(ElemV, int)>
    decreases s.len() - i, 0int,
{
    if i < 0 || i + 1 >= s.len() || s[i] != '<' {
        None
    } else {
        let k = sp_name_end(s, i + 1);
        if k <= i + 1 {
            None
        } else {
            let name = s.subrange(i + 1, k);
            match sp_attrs(s, k) {
                None => None,
                Some((attrs, a)) => if a >= s.len() {
                    None
                } else if s[a] == '/' {
                    if a + 1 < s.len() && s[a + 1] == '>' {
                        Some(
                            (
                                ElemV { name: local_name(name), attrs, children: Seq::empty() },
                                a + 2,
                            ),
                        )
                    } else {
                        None
                    }
                } else if s[a] == '>' {
                    if a + 1 > i {
                        match sp_content(s, a + 1) {
                            None => None,
                            Some((ch, m)) => if m + 1 < s.len() && s[m] == '<' && s[m + 1]
                                == '/' {
                                let p = sp_name_end(s, m + 2);
                                if p <= m + 2 {
                                    None
                                } else if s.subrange(m + 2, p) == name {
                                    let q = sp_ws(s, p);
                                    if q < s.len() && s[q] == '>' {
                                        Some(
                                            (
                                                ElemV {
                                                    name: local_name(name),
                                                    attrs,
                                                    children: ch,
                                                },
                                                q + 1,
                                            ),
                                        )
                                    } else {
                                        None
                                    }
                                } else {
                                    None
                                }
                            } else {
                                None
                            },
                        }
                    } else {
                        None
                    }
                } else {
                    None
                },
            }
        }
    }
}

/// The content of an element from `i` on: text runs and child elements,
/// ending (without consuming it) at the `</` of the end tag.
pub open spec fn sp_content(s: Seq<char>, i: int) -> Option<(Seq<NodeV>, int)>
    decreases s.len() - i, 1int,
{
    if i < 0 || i >= s.len() {
        None
    } else if s[i] == '<' {
        if i + 1 < s.len() && s[i + 1] == '/' {
            Some((Seq::empty(), i))
        } else if i + 3 < s.len() && s[i + 1] == '!' && s[i + 2] == '-' && s[i + 3] == '-' {
            // a comment yields no node
            match sp_comment_end(s, i + 4) {
                None => None,
                Some(j) => if j > i && j <= s.len() {
                    sp_content(s, j)
                } else {
                    None
                },
            }
        } else if i + 8 < s.len() && s[i + 1] == '!' && s[i + 2] == '[' && s[i + 3] == 'C' && s[
            i + 4
        ] == 'D' && s[i + 5] == 'A' && s[i + 6] == 'T' && s[i + 7] == 'A' && s[i + 8] == '[' {
            // a CDATA section is one verbatim text node
            match sp_cdata_end(s, i + 9) {
                None => None,
                Some(j) => if j > i && j <= s.len() {
                    match sp_content(s, j) {
                        None => None,
                        Some((rest, k)) => Some(
                            (seq![NodeV::Text(s.subrange(i + 9, j - 3))] + rest, k),
                        ),
                    }
                } else {
                    None
                },
            }
        } else {
            match sp_element(s, i) {
                None => None,
                Some((e, j)) => if j > i && j <= s.len() {
                    match sp_content(s, j) {
                        None => None,
                        Some((rest, k)) => Some((seq![NodeV::Elem(e)] + rest, k)),
                    }
                } else {
                    None
                },
            }
        }
    } else {
        match sp_scan(s, i, '<') {
            None => None,
            Some((t, j)) => if j > i && j <= s.len() {
                match sp_content(s, j) {
                    None => None,
                    Some((rest, k)) => Some((seq![NodeV::Text(t)] + rest, k)),
                }
            } else {
                None
            },
        }
    }
}

/// The position after the first `?>` at or after `i`.
pub open spec fn sp_prolog_end(s: Seq<char>, i: int) -> Option<int>
    decreases s.len() - i,
{
    if i < 0 || i + 1 >= s.len() {
        None
    } else if s[i] == '?' && s[i + 1] == '>' {
        Some(i + 2)
    } else {
        sp_prolog_end(s, i + 1)
    }
}

/// The position after any run of whitespace and comments.
pub open spec fn sp_misc(s: Seq<char>, i: int) -> Option<int>
    decreases s.len() - i,
{
    if i < 0 {
        None
    } else {
        let j = sp_ws(s, i);
        if j < i {
            None
        } else if j + 3 < s.len() && s[j] == '<' && s[j + 1] == '!' && s[j + 2] == '-' && s[j + 3]
            == '-' {
            match sp_comment_end(s, j + 4) {
                None => None,
                Some(k) => if k > i && k <= s.len() {
                    sp_misc(s, k)
                } else {
                    None
                },
            }
        } else {
            Some(j)
        }
    }
}

/// A whole document: an optional prolog, then one element, with only
/// whitespace and comments around it.
pub open spec fn spec_parse_document(s: Seq<char>) -> Option<ElemV> {
    let start = if s.len() >= 2 && s[0] == '<' && s[1] == '?' {
        sp_prolog_end(s, 2)
    } else {
        Some(0int)
    };
    match start {
        None => None,
        Some(i0) => match sp_misc(s, i0) {
            None => None,
            Some(i1) => match sp_element(s, i1) {
                None => None,
                Some((e, j)) => match sp_misc(s, j) {
                    Some(j2) => if j2 == s.len() {
                        Some(e)
                    } else {
                        None
                    },
                    None => None,
                },
            },
        },
    }
}

/// Whether `c` is wire-text whitespace, as [`is_ws`] says.
fn ws_char(c: char) -> (r: bool)
    ensures
        r == is_ws(c),
{
    c == ' ' || c == '\t' || c == '\r' || c == '\n'
}

/// Whether `c` may stand in a name, as [`is_name_char`] says.
fn name_char(c: char) -> (r: bool)
    ensures
        r == is_name_char(c),
{
    !(c == ' ' || c == '\t' || c == '\r' || c == '\n' || c == '<' || c == '>' || c == '/'
        || c == '=' || c == '"' || c == '\'' || c == '&' || c == '?' || c == '!')
}

/// Skip whitespace, exactly as [`sp_ws`] says.
fn p_ws(v: &Vec<char>, i: usize) -> (r: usize)
    ensures
        r as int == sp_ws(v@, i as int),
        i <= r,
        i <= v@.len() ==> r <= v@.len(),
    decreases v@.len() - i,
{
    if i < v.len() && ws_char(v[i]) {
        p_ws(v, i + 1)
    } else {
        i
    }
}

/// Find the end of a name run, exactly as [`sp_name_end`] says.
fn p_name_end(v: &Vec<char>, i: usize) -> (r: usize)
    ensures
        r as int == sp_name_end(v@, i as int),
        i <= r,
        i <= v@.len() ==> r <= v@.len(),
    decreases v@.len() - i,
{
    if i < v.len() && name_char(v[i]) {
        p_name_end(v, i + 1)
    } else {
        i
    }
}

/// The string of the characters in `[a, b)`.
fn chars_range_string(v: &Vec<char>, a: usize, b: usize) -> (s: String)
    requires
        a <= b <= v@.len(),
    ensures
        s@ == v@.subrange(a as int, b as int),
{
    let mut s = String::new();
    let mut t: usize = a;
    while t < b
        invariant
            a <= t <= b <= v@.len(),
            s@ == v@.subrange(a as int, t as int),
        decreases b - t,
    {
        push_char(&mut s, v[t]);
        proof {
            assert(s@ =~= v@.subrange(a as int, t + 1));
        }
        t += 1;
    }
    s
}

/// The local part of the name in `[a, b)`, exactly as [`local_name`] says.
fn local_of(v: &Vec<char>, a: usize, b: usize) -> (s: String)
    requires
        a <= b <= v@.len(),
    ensures
        s@ == local_name(v@.subrange(a as int, b as int)),
{
    let ghost sub = v@.subrange(a as int, b as int);
    let mut t: usize = a;
    while t < b
        invariant
            a <= t <= b <= v@.len(),
            sub == v@.subrange(a as int, b as int),
            colon_at(sub, 0) == colon_at(sub, t - a),
            forall|w: int| 0 <= w < t - a ==> sub[w] != ':',
        decreases b - t,
    {
        if v[t] == ':' {
            proof {
                assert(sub[t - a] == v@[t as int]);
                assert(colon_at(sub, t - a) == Some(t - a));
                assert(local_name(sub) == sub.skip(t - a + 1));
                assert(sub.skip(t - a + 1) =~= v@.subrange(t + 1, b as int));
            }
            return chars_range_string(v, t + 1, b);
        }
        proof {
            assert(sub[t - a] == v@[t as int]);
        }
        t += 1;
    }
    proof {
        assert(colon_at(sub, b - a) is None);
        assert(local_name(sub) == sub);
    }
    chars_range_string(v, a, b)
}

/// Whether two character ranges hold the same text.
fn range_eq(v: &Vec<char>, a1: usize, b1: usize, a2: usize, b2: usize) -> (r: bool)
    requires
        a1 <= b1 <= v@.len(),
        a2 <= b2 <= v@.len(),
    ensures
        r == (v@.subrange(a1 as int, b1 as int) == v@.subrange(a2 as int, b2 as int)),
{
    let ghost s1 = v@.subrange(a1 as int, b1 as int);
    let ghost s2 = v@.subrange(a2 as int, b2 as int);
    if b1 - a1 != b2 - a2 {
        proof {
            assert(s1.len() != s2.len());
        }
        return false;
    }
    let n = b1 - a1;
    let mut t: usize = 0;
    while t < n
        invariant
            t <= n,
            n == b1 - a1,
            n == b2 - a2,
            a1 + n <= v@.len(),
            a2 + n <= v@.len(),
            s1 == v@.subrange(a1 as int, b1 as int),
            s2 == v@.subrange(a2 as int, b2 as int),
            forall|w: int| 0 <= w < t ==> s1[w] == s2[w],
        decreases n - t,
    {
        if v[a1 + t] != v[a2 + t] {
            proof {
                assert(s1[t as int] != s2[t as int]);
            }
            return false;
        }
        proof {
            assert(s1[t as int] == s2[t as int]);
        }
        t += 1;
    }
    proof {
        assert(s1 =~= s2);
    }
    true
}

/// Find the end of a decimal digit run, exactly as [`dec_run_end`] says.
fn p_dec_run_end(v: &Vec<char>, i: usize) -> (r: usize)
    ensures
        r as int == dec_run_end(v@, i as int),
        i <= r,
        i <= v@.len() ==> r <= v@.len(),
        forall|k: int| i <= k < r ==> crate::num::is_dec_digit(#[trigger] v@[k]),
    decreases v@.len() - i,
{
    if i < v.len() && {
        let u = v[i] as u32;
        u >= 48 && u <= 57
    } {
        p_dec_run_end(v, i + 1)
    } else {
        i
    }
}

/// Find the end of a hexadecimal digit run, exactly as [`hex_run_end`]
/// says.
fn p_hex_run_end(v: &Vec<char>, i: usize) -> (r: usize)
    ensures
        r as int == hex_run_end(v@, i as int),
        i <= r,
        i <= v@.len() ==> r <= v@.len(),
        forall|k: int| i <= k < r ==> is_hex_digit(#[trigger] v@[k]),
    decreases v@.len() - i,
{
    if i < v.len() && {
        let u = v[i] as u32;
        (u >= 48 && u <= 57) || (u >= 97 && u <= 102) || (u >= 65 && u <= 70)
    } {
        p_hex_run_end(v, i + 1)
    } else {
        i
    }
}

/// The value of one hexadecimal digit.
fn hex_digit_value(c: char) -> (d: u32)
    requires
        is_hex_digit(c),
    ensures
        d == hex_digit_val(c),
{
    let u = c as u32;
    if u >= 97 {
        u - 87
    } else if u >= 65 {
        u - 55
    } else {
        u - 48
    }
}

/// The value of a decimal digit run, exact up to the last valid scalar:
/// anything above is reported as some value above it.
fn dec_ref_value(v: &Vec<char>, a: usize, e: usize) -> (r: u32)
    requires
        a <= e <= v@.len(),
        forall|k: int| a <= k < e ==> crate::num::is_dec_digit(#[trigger] v@[k]),
    ensures
        ({
            let val = crate::num::digits_val(v@.subrange(a as int, e as int));
            if val <= 0x10FFFF {
                r == val
            } else {
                r > 0x10FFFF
            }
        }),
{
    let mut acc: u32 = 0;
    let mut t: usize = a;
    proof {
        assert(v@.subrange(a as int, a as int) =~= Seq::<char>::empty());
    }
    while t < e
        invariant
            a <= t <= e <= v@.len(),
            forall|k: int| a <= k < e ==> crate::num::is_dec_digit(#[trigger] v@[k]),
            acc <= 11_141_119,
            ({
                let val = crate::num::digits_val(v@.subrange(a as int, t as int));
                if val <= 0x10FFFF {
                    acc == val
                } else {
                    acc > 0x10FFFF
                }
            }),
        decreases e - t,
    {
        let ghost preval = crate::num::digits_val(v@.subrange(a as int, t as int));
        let d = (v[t] as u32) - 48;
        proof {
            let sub2 = v@.subrange(a as int, t + 1);
            assert(sub2.drop_last() =~= v@.subrange(a as int, t as int));
            assert(sub2.last() == v@[t as int]);
            assert(crate::num::digits_val(sub2) == preval * 10 + d);
        }
        if acc > 0x10FFFF {
            acc = 0x110000;
            proof {
                assert(preval * 10 + d > 0x10FFFF) by (nonlinear_arith)
                    requires
                        preval > 0x10FFFF,
                        d >= 0,
                ;
            }
        } else {
            acc = acc * 10 + d;
        }
        t += 1;
    }
    acc
}

/// The value of a hexadecimal digit run, exact up to the last valid
/// scalar: anything above is reported as some value above it.
fn hex_ref_value(v: &Vec<char>, a: usize, e: usize) -> (r: u32)
    requires
        a <= e <= v@.len(),
        forall|k: int| a <= k < e ==> is_hex_digit(#[trigger] v@[k]),
    ensures
        ({
            let val = hex_val(v@.subrange(a as int, e as int));
            if val <= 0x10FFFF {
                r == val
            } else {
                r > 0x10FFFF
            }
        }),
{
    let mut acc: u32 = 0;
    let mut t: usize = a;
    proof {
        assert(v@.subrange(a as int, a as int) =~= Seq::<char>::empty());
    }
    while t < e
        invariant
            a <= t <= e <= v@.len(),
            forall|k: int| a <= k < e ==> is_hex_digit(#[trigger] v@[k]),
            acc <= 17_825_791,
            ({
                let val = hex_val(v@.subrange(a as int, t as int));
                if val <= 0x10FFFF {
                    acc == val
                } else {
                    acc > 0x10FFFF
                }
            }),
        decreases e - t,
    {
        let ghost preval = hex_val(v@.subrange(a as int, t as int));
        let d = hex_digit_value(v[t]);
        proof {
            let sub2 = v@.subrange(a as int, t + 1);
            assert(sub2.drop_last() =~= v@.subrange(a as int, t as int));
            assert(sub2.last() == v@[t as int]);
            assert(hex_val(sub2) == preval * 16 + hex_digit_val(v@[t as int]));
            assert(0 <= hex_digit_val(v@[t as int]) <= 15);
        }
        if acc > 0x10FFFF {
            acc = 0x110000;
            proof {
                assert(preval * 16 + hex_digit_val(v@[t as int]) > 0x10FFFF) by (nonlinear_arith)
                    requires
                        preval > 0x10FFFF,
                        hex_digit_val(v@[t as int]) >= 0,
                ;
            }
        } else {
            acc = acc * 16 + d;
        }
        t += 1;
    }
    acc
}

/// One entity, exactly as [`sp_entity`] says.
fn p_entity(v: &Vec<char>, i: usize) -> (r: Option<(char, usize)>)
    ensures
        match r {
            Some(p) => {
                &&& sp_entity(v@, i as int) == Some((p.0, p.1 as int))
                &&& i < p.1 <= v@.len()
            },
            None => sp_entity(v@, i as int) is None,
        },
{
    let n = v.len();
    if i < n && n - i >= 5 && v[i] == '&' && v[i + 1] == 'a' && v[i + 2] == 'm' && v[i + 3] == 'p'
        && v[i + 4] == ';' {
        Some(('&', i + 5))
    } else if i < n && n - i >= 4 && v[i] == '&' && v[i + 1] == 'l' && v[i + 2] == 't' && v[i + 3]
        == ';' {
        Some(('<', i + 4))
    } else if i < n && n - i >= 4 && v[i] == '&' && v[i + 1] == 'g' && v[i + 2] == 't' && v[i + 3]
        == ';' {
        Some(('>', i + 4))
    } else if i < n && n - i >= 6 && v[i] == '&' && v[i + 1] == 'q' && v[i + 2] == 'u' && v[i + 3]
        == 'o' && v[i + 4] == 't' && v[i + 5] == ';' {
        Some(('"', i + 6))
    } else if i < n && n - i >= 6 && v[i] == '&' && v[i + 1] == 'a' && v[i + 2] == 'p' && v[i + 3]
        == 'o' && v[i + 4] == 's' && v[i + 5] == ';' {
        Some(('\'', i + 6))
    } else if i < n && n - i >= 4 && v[i] == '&' && v[i + 1] == '#' && v[i + 2] == 'x' {
        let e = p_hex_run_end(v, i + 3);
        if i + 3 < e && e < n && v[e] == ';' {
            let val = hex_ref_value(v, i + 3, e);
            if val <= 0x10FFFF && !(val >= 0xD800 && val <= 0xDFFF) {
                proof {
                    assert(valid_scalar(hex_val(v@.subrange(i + 3, e as int))));
                }
                Some((crate::strings::char_from_code(val), e + 1))
            } else {
                proof {
                    assert(!valid_scalar(hex_val(v@.subrange(i + 3, e as int))));
                }
                None
            }
        } else {
            None
        }
    } else if i < n && n - i >= 3 && v[i] == '&' && v[i + 1] == '#' {
        let e = p_dec_run_end(v, i + 2);
        if i + 2 < e && e < n && v[e] == ';' {
            let val = dec_ref_value(v, i + 2, e);
            if val <= 0x10FFFF && !(val >= 0xD800 && val <= 0xDFFF) {
                proof {
                    assert(valid_scalar(crate::num::digits_val(v@.subrange(i + 2, e as int))));
                }
                Some((crate::strings::char_from_code(val), e + 1))
            } else {
                proof {
                    assert(!valid_scalar(crate::num::digits_val(v@.subrange(i + 2, e as int))));
                }
                None
            }
        } else {
            None
        }
    } else {
        None
    }
}

/// One unescaped run, exactly as [`sp_scan`] says.
fn p_scan(v: &Vec<char>, i: usize, stop: char) -> (r: Option<(String, usize)>)
    ensures
        match r {
            Some(p) => {
                &&& sp_scan(v@, i as int, stop) == Some((p.0@, p.1 as int))
                &&& i <= p.1 < v@.len()
            },
            None => sp_scan(v@, i as int, stop) is None,
        },
    decreases v@.len() - i,
{
    if i >= v.len() {
        return None;
    }
    let c = v[i];
    if c == stop {
        let s = String::new();
        proof {
            assert(s@ =~= Seq::<char>::empty());
        }
        Some((s, i))
    } else if c == '&' {
        match p_entity(v, i) {
            None => None,
            Some((ec, j)) => {
                match p_scan(v, j, stop) {
                    None => None,
                    Some((t, k)) => {
                        let mut out = String::new();
                        push_char(&mut out, ec);
                        let out2 = out.concat(t.as_str());
                        proof {
                            assert(out2@ =~= seq![ec] + t@);
                        }
                        Some((out2, k))
                    },
                }
            },
        }
    } else {
        match p_scan(v, i + 1, stop) {
            None => None,
            Some((t, k)) => {
                let mut out = String::new();
                push_char(&mut out, c);
                let out2 = out.concat(t.as_str());
                proof {
                    assert(out2@ =~= seq![v@[i as int]] + t@);
                }
                Some((out2, k))
            },
        }
    }
}

/// The attribute list, exactly as [`sp_attrs`] says.
fn p_attrs(v: &Vec<char>, i: usize) -> (r: Option<(Vec<(String, String)>, usize)>)
    ensures
        match r {
            Some(p) => {
                &&& sp_attrs(v@, i as int) == Some((view_attrs(p.0@), p.1 as int))
                &&& i <= p.1 < v@.len()
            },
            None => sp_attrs(v@, i as int) is None,
        },
    decreases v@.len() - i,
{
    let j = p_ws(v, i);
    if j >= v.len() {
        return None;
    }
    let cj = v[j];
    if cj == '>' || cj == '/' {
        let out: Vec<(String, String)> = Vec::new();
        proof {
            lemma_view_attrs_index(out@);
            assert(view_attrs(out@) =~= Seq::<(Seq<char>, Seq<char>)>::empty());
        }
        return Some((out, j));
    }
    let k = p_name_end(v, j);
    if k <= j {
        return None;
    }
    if v.len() - k >= 2 && v[k] == '=' && (v[k + 1] == '"' || v[k + 1] == '\'') {
        let q = v[k + 1];
        match p_scan(v, k + 2, q) {
            None => None,
            Some((val, m)) => {
                if m < v.len() && m + 1 > i {
                    match p_attrs(v, m + 1) {
                        None => None,
                        Some((rest, e2)) => {
                            let nm = local_of(v, j, k);
                            let mut out: Vec<(String, String)> = Vec::new();
                            out.push((nm, val));
                            let mut r2 = rest;
                            out.append(&mut r2);
                            proof {
                                lemma_view_attrs_index(out@);
                                assert(view_attrs(out@) =~= seq![
                                    (local_name(v@.subrange(j as int, k as int)), sp_scan(
                                        v@,
                                        k + 2,
                                        q,
                                    )->Some_0.0),
                                ] + view_attrs(out@.skip(1)));
                                assert(out@.skip(1) =~= out@.subrange(1, out@.len() as int));
                            }
                            Some((out, e2))
                        },
                    }
                } else {
                    None
                }
            },
        }
    } else {
        None
    }
}

/// One element, exactly as [`sp_element`] says.
fn p_element(v: &Vec<char>, i: usize) -> (r: Option<(Element, usize)>)
    ensures
        match r {
            Some(p) => {
                &&& sp_element(v@, i as int) == Some((p.0@, p.1 as int))
                &&& i < p.1 <= v@.len()
            },
            None => sp_element(v@, i as int) is None,
        },
    decreases v@.len() - i, 0int,
{
    if i >= v.len() || v.len() - i < 2 || v[i] != '<' {
        return None;
    }
    let k = p_name_end(v, i + 1);
    if k <= i + 1 {
        return None;
    }
    match p_attrs(v, k) {
        None => None,
        Some((attrs, a)) => {
            if v[a] == '/' {
                if v.len() - a >= 2 && v[a + 1] == '>' {
                    let e = Element {
                        name: local_of(v, i + 1, k),
                        attributes: attrs,
                        children: Vec::new(),
                    };
                    proof {
                        lemma_view_children_index(e.children@);
                        assert(view_children(e.children@) =~= Seq::<NodeV>::empty());
                        assert(e@ =~= (ElemV {
                            name: local_name(v@.subrange(i + 1, k as int)),
                            attrs: view_attrs(e.attributes@),
                            children: Seq::empty(),
                        }));
                    }
                    Some((e, a + 2))
                } else {
                    None
                }
            } else if v[a] == '>' {
                match p_content(v, a + 1) {
                    None => None,
                    Some((ch, m)) => {
                        if v.len() - m >= 2 && v[m] == '<' && v[m + 1] == '/' {
                            let p2 = p_name_end(v, m + 2);
                            if p2 <= m + 2 {
                                return None;
                            }
                            if range_eq(v, m + 2, p2, i + 1, k) {
                                let q = p_ws(v, p2);
                                if q < v.len() && v[q] == '>' {
                                    let e = Element {
                                        name: local_of(v, i + 1, k),
                                        attributes: attrs,
                                        children: ch,
                                    };
                                    proof {
                                        assert(e@ =~= (ElemV {
                                            name: local_name(v@.subrange(i + 1, k as int)),
                                            attrs: view_attrs(e.attributes@),
                                            children: view_children(e.children@),
                                        }));
                                    }
                                    Some((e, q + 1))
                                } else {
                                    None
                                }
                            } else {
                                None
                            }
                        } else {
                            None
                        }
                    },
                }
            } else {
                None
            }
        },
    }
}

/// Find the end of a comment, exactly as [`sp_comment_end`] says.
fn p_comment_end(v: &Vec<char>, i: usize) -> (r: Option<usize>)
    ensures
        match r {
            Some(j) => sp_comment_end(v@, i as int) == Some(j as int) && i < j <= v@.len(),
            None => sp_comment_end(v@, i as int) is None,
        },
    decreases v@.len() - i,
{
    if i >= v.len() || v.len() - i < 3 {
        None
    } else if v[i] == '-' && v[i + 1] == '-' && v[i + 2] == '>' {
        Some(i + 3)
    } else {
        p_comment_end(v, i + 1)
    }
}

/// Find the end of a CDATA section, exactly as [`sp_cdata_end`] says.
fn p_cdata_end(v: &Vec<char>, i: usize) -> (r: Option<usize>)
    ensures
        match r {
            Some(j) => sp_cdata_end(v@, i as int) == Some(j as int) && i + 3 <= j <= v@.len(),
            None => sp_cdata_end(v@, i as int) is None,
        },
    decreases v@.len() - i,
{
    if i >= v.len() || v.len() - i < 3 {
        None
    } else if v[i] == ']' && v[i + 1] == ']' && v[i + 2] == '>' {
        Some(i + 3)
    } else {
        p_cdata_end(v, i + 1)
    }
}

/// Skip whitespace and comments, exactly as [`sp_misc`] says.
fn p_misc(v: &Vec<char>, i: usize) -> (r: Option<usize>)
    requires
        i <= v@.len(),
    ensures
        match r {
            Some(j) => sp_misc(v@, i as int) == Some(j as int) && i <= j <= v@.len(),
            None => sp_misc(v@, i as int) is None,
        },
    decreases v@.len() - i,
{
    let j = p_ws(v, i);
    if j < v.len() && v.len() - j >= 4 && v[j] == '<' && v[j + 1] == '!' && v[j + 2] == '-'
        && v[j + 3] == '-' {
        match p_comment_end(v, j + 4) {
            None => None,
            Some(k) => p_misc(v, k),
        }
    } else {
        Some(j)
    }
}

/// Element content, exactly as [`sp_content`] says.
fn p_content(v: &Vec<char>, i: usize) -> (r: Option<(Vec<XMLNode>, usize)>)
    ensures
        match r {
            Some(p) => {
                &&& sp_content(v@, i as int) == Some((view_children(p.0@), p.1 as int))
                &&& i <= p.1 < v@.len()
            },
            None => sp_content(v@, i as int) is None,
        },
    decreases v@.len() - i, 1int,
{
    if i >= v.len() {
        return None;
    }
    if v[i] == '<' {
        if v.len() - i >= 2 && v[i + 1] == '/' {
            let out: Vec<XMLNode> = Vec::new();
            proof {
                lemma_view_children_index(out@);
                assert(view_children(out@) =~= Seq::<NodeV>::empty());
            }
            Some((out, i))
        } else if v.len() - i >= 4 && v[i + 1] == '!' && v[i + 2] == '-' && v[i + 3] == '-' {
            match p_comment_end(v, i + 4) {
                None => None,
                Some(j) => p_content(v, j),
            }
        } else if v.len() - i >= 9 && v[i + 1] == '!' && v[i + 2] == '[' && v[i + 3] == 'C'
            && v[i + 4] == 'D' && v[i + 5] == 'A' && v[i + 6] == 'T' && v[i + 7] == 'A'
            && v[i + 8] == '[' {
            match p_cdata_end(v, i + 9) {
                None => None,
                Some(j) => {
                    match p_content(v, j) {
                        None => None,
                        Some((rest, k)) => {
                            let text = chars_range_string(v, i + 9, j - 3);
                            let ghost tv = text@;
                            let ghost restv = view_children(rest@);
                            let mut out: Vec<XMLNode> = Vec::new();
                            out.push(XMLNode::Text(text));
                            let mut r2 = rest;
                            out.append(&mut r2);
                            proof {
                                lemma_view_children_index(out@);
                                lemma_view_children_index(rest@);
                                assert(view_children(out@) =~= seq![NodeV::Text(tv)] + restv);
                            }
                            Some((out, k))
                        },
                    }
                },
            }
        } else {
            match p_element(v, i) {
                None => None,
                Some((e, j)) => {
                    match p_content(v, j) {
                        None => None,
                        Some((rest, k)) => {
                            let ghost ev = e@;
                            let ghost restv = view_children(rest@);
                            let mut out: Vec<XMLNode> = Vec::new();
                            out.push(XMLNode::Element(e));
                            let mut r2 = rest;
                            out.append(&mut r2);
                            proof {
                                lemma_view_children_index(out@);
                                lemma_view_children_index(out@.subrange(1, out@.len() as int));
                                lemma_view_children_index(rest@);
                                assert(view_children(out@) =~= seq![NodeV::Elem(ev)] + restv);
                            }
                            Some((out, k))
                        },
                    }
                },
            }
        }
    } else {
        match p_scan(v, i, '<') {
            None => None,
            Some((t, j)) => {
                if j > i {
                    match p_content(v, j) {
                        None => None,
                        Some((rest, k)) => {
                            let ghost tv = t@;
                            let ghost restv = view_children(rest@);
                            let mut out: Vec<XMLNode> = Vec::new();
                            out.push(XMLNode::Text(t));
                            let mut r2 = rest;
                            out.append(&mut r2);
                            proof {
                                lemma_view_children_index(out@);
                                lemma_view_children_index(rest@);
                                assert(view_children(out@) =~= seq![NodeV::Text(tv)] + restv);
                            }
                            Some((out, k))
                        },
                    }
                } else {
                    None
                }
            },
        }
    }
}

/// Find the end of the prolog, exactly as [`sp_prolog_end`] says.
fn p_prolog_end(v: &Vec<char>, i: usize) -> (r: Option<usize>)
    ensures
        match r {
            Some(j) => sp_prolog_end(v@, i as int) == Some(j as int) && i < j <= v@.len(),
            None => sp_prolog_end(v@, i as int) is None,
        },
    decreases v@.len() - i,
{
    if i >= v.len() || v.len() - i < 2 {
        None
    } else if v[i] == '?' && v[i + 1] == '>' {
        Some(i + 2)
    } else {
        p_prolog_end(v, i + 1)
    }
}

/// Parse a whole wire document, exactly as [`spec_parse_document`] says.
pub fn parse_document(text: &str) -> (r: Option<Element>)
    ensures
        match r {
            Some(e) => spec_parse_document(text@) == Some(e@),
            None => spec_parse_document(text@) is None,
        },
{
    let v = crate::strings::to_chars(text);
    let start: Option<usize> = if v.len() >= 2 && v[0] == '<' && v[1] == '?' {
        p_prolog_end(&v, 2)
    } else {
        Some(0)
    };
    match start {
        None => None,
        Some(i0) => {
            match p_misc(&v, i0) {
                None => None,
                Some(i1) => match p_element(&v, i1) {
                    None => None,
                    Some((e, j)) => match p_misc(&v, j) {
                        None => None,
                        Some(j2) => if j2 == v.len() {
                            Some(e)
                        } else {
                            None
                        },
                    },
                },
            }
        },
    }
}

// ---------------------------------------------------------------------------
// The renderer and the parser agree
// ---------------------------------------------------------------------------

/// A name the wire format carries unchanged: nonempty, of name characters,
/// without a namespace prefix (descent works on local names, so a prefixed
/// name would come back stripped).
pub open spec fn safe_name(n: Seq<char>) -> bool {
    &&& n.len() > 0
    &&& forall|i: int| 0 <= i < n.len() ==> is_name_char(#[trigger] n[i])
    &&& colon_at(n, 0) is None
}

/// A node the wire format carries unchanged.
pub open spec fn wire_safe_node(n: NodeV) -> bool
    decreases n,
{
    match n {
        NodeV::Text(t) => t.len() > 0,
        NodeV::Elem(e) => wire_safe_elem(e),
    }
}

/// A child list the wire format carries unchanged: each child safe, no
/// empty text, and no two adjacent text children (adjacent runs would
/// merge into one on the way back).
pub open spec fn wire_safe_nodes(ch: Seq<NodeV>) -> bool
    decreases ch,
{
    if ch.len() == 0 {
        true
    } else {
        &&& wire_safe_node(ch[0])
        &&& !(ch[0] is Text && ch.len() > 1 && ch[1] is Text)
        &&& wire_safe_nodes(ch.drop_first())
    }
}

/// An element the wire format carries unchanged.
pub open spec fn wire_safe_elem(e: ElemV) -> bool
    decreases e,
{
    &&& safe_name(e.name)
    &&& forall|i: int| 0 <= i < e.attrs.len() ==> safe_name((#[trigger] e.attrs[i]).0)
    &&& wire_safe_nodes(e.children)
}

/// A run of name characters ends exactly at the first other character.
proof fn lemma_name_end_run(s: Seq<char>, i: int, j: int)
    requires
        0 <= i <= j <= s.len(),
        forall|k: int| i <= k < j ==> is_name_char(#[trigger] s[k]),
        j == s.len() || !is_name_char(s[j]),
    ensures
        sp_name_end(s, i) == j,
    decreases j - i,
{
    if i < j {
        lemma_name_end_run(s, i + 1, j);
    }
}

/// A run of whitespace ends exactly at the first other character.
proof fn lemma_ws_run(s: Seq<char>, i: int, j: int)
    requires
        0 <= i <= j <= s.len(),
        forall|k: int| i <= k < j ==> is_ws(#[trigger] s[k]),
        j == s.len() || !is_ws(s[j]),
    ensures
        sp_ws(s, i) == j,
    decreases j - i,
{
    if i < j {
        lemma_ws_run(s, i + 1, j);
    }
}

/// Escaping never shrinks a text.
proof fn lemma_esc_str_len(t: Seq<char>)
    ensures
        esc_str(t).len() >= t.len(),
    decreases t.len(),
{
    if t.len() > 0 {
        lemma_esc_str_len(t.drop_first());
    }
}

/// The scanner recovers an escaped text exactly, stopping at the stop
/// character that follows it.
proof fn lemma_scan_escaped(s: Seq<char>, i: int, t: Seq<char>, stop: char)
    requires
        0 <= i,
        i + esc_str(t).len() < s.len(),
        s.subrange(i, i + esc_str(t).len()) == esc_str(t),
        stop == '<' || stop == '"' || stop == '\'',
        s[i + esc_str(t).len()] == stop,
    ensures
        sp_scan(s, i, stop) == Some((t, i + esc_str(t).len())),
    decreases t.len(),
{
    if t.len() == 0 {
        assert(esc_str(t).len() == 0);
        assert(s[i] == stop);
    } else {
        let c = t[0];
        let rest = t.drop_first();
        let ec = esc_char(c);
        assert(esc_str(t) == ec + esc_str(rest));
        assert forall|k: int| 0 <= k < ec.len() implies s[i + k] == ec[k] by {
            assert(s.subrange(i, i + esc_str(t).len())[k] == s[i + k]);
            assert((ec + esc_str(rest))[k] == ec[k]);
        }
        assert forall|k: int| 0 <= k < esc_str(rest).len() implies s[i + ec.len() + k]
            == esc_str(rest)[k] by {
            assert(s.subrange(i, i + esc_str(t).len())[ec.len() + k] == s[i + ec.len() + k]);
            assert((ec + esc_str(rest))[ec.len() + k] == esc_str(rest)[k]);
        }
        assert(s.subrange(i + ec.len(), i + esc_str(t).len()) =~= esc_str(rest));
        lemma_scan_escaped(s, i + ec.len(), rest, stop);
        if c == '&' || c == '<' || c == '>' || c == '"' || c == '\'' {
            // an entity was emitted; the scanner reads it back
            assert(s[i] == '&');
            assert(sp_entity(s, i) == Some((c, i + ec.len())));
            assert(sp_scan(s, i, stop) == Some((seq![c] + rest, i + esc_str(t).len())));
            assert(seq![c] + rest =~= t);
        } else {
            assert(ec =~= seq![c]);
            assert(s[i + 0] == ec[0]);
            assert(s[i] == c);
            assert(s[i] != stop);
            assert(s[i] != '&');
            assert(sp_scan(s, i, stop) == Some((seq![c] + rest, i + esc_str(t).len())));
            assert(seq![c] + rest =~= t);
        }
    }
}

/// The attribute parser recovers a rendered attribute list exactly,
/// stopping at the `>` or `/` that follows it.
proof fn lemma_attrs_render(s: Seq<char>, i: int, attrs: Seq<(Seq<char>, Seq<char>)>, idx: int)
    requires
        0 <= i,
        0 <= idx <= attrs.len(),
        forall|k: int| 0 <= k < attrs.len() ==> safe_name((#[trigger] attrs[k]).0),
        i + render_attrs(attrs, idx).len() < s.len(),
        s.subrange(i, i + render_attrs(attrs, idx).len()) == render_attrs(attrs, idx),
        s[i + render_attrs(attrs, idx).len()] == '>' || s[i + render_attrs(attrs, idx).len()]
            == '/',
    ensures
        sp_attrs(s, i) == Some(
            (attrs.subrange(idx, attrs.len() as int), i + render_attrs(attrs, idx).len()),
        ),
    decreases attrs.len() - idx,
{
    let r = render_attrs(attrs, idx);
    assert forall|k: int| 0 <= k < r.len() implies s[i + k] == r[k] by {
        assert(s.subrange(i, i + r.len())[k] == s[i + k]);
    }
    if idx == attrs.len() {
        assert(r.len() == 0);
        lemma_ws_run(s, i, i);
        assert(attrs.subrange(idx, attrs.len() as int) =~= Seq::<(Seq<char>, Seq<char>)>::empty());
    } else {
        let name = attrs[idx].0;
        let val = attrs[idx].1;
        let nl = name.len() as int;
        let el = esc_str(val).len() as int;
        let a1 = seq![' '] + name;
        let a2 = a1 + seq!['=', '"'];
        let a3 = a2 + esc_str(val);
        let head = a3 + seq!['"'];
        let rest = render_attrs(attrs, idx + 1);
        assert(r == head + rest);
        assert(head.len() == nl + el + 4);
        // character 0 is the leading space
        assert(head[0] == a3[0] && a3[0] == a2[0] && a2[0] == a1[0] && a1[0] == ' ');
        assert(s[i + 0] == r[0] && r[0] == head[0]);
        assert(s[i] == ' ');
        // characters 1 .. 1+nl are the name
        assert forall|k: int| i + 1 <= k < i + 1 + nl implies is_name_char(#[trigger] s[k]) by {
            let w = k - i;
            assert(s[i + w] == r[w]);
            assert(r[w] == head[w] && head[w] == a3[w] && a3[w] == a2[w] && a2[w] == a1[w]);
            assert(a1[w] == name[w - 1]);
        }
        assert forall|k: int| 0 <= k < nl implies s.subrange(i + 1, i + 1 + nl)[k] == name[k] by {
            let w = k + 1;
            assert(s[i + w] == r[w]);
            assert(r[w] == head[w] && head[w] == a3[w] && a3[w] == a2[w] && a2[w] == a1[w]);
            assert(a1[w] == name[w - 1]);
        }
        assert(s.subrange(i + 1, i + 1 + nl) =~= name);
        // then `="`
        assert(a2[1 + nl] == '=' && a2[2 + nl] == '"');
        assert(head[1 + nl] == a3[1 + nl] && a3[1 + nl] == a2[1 + nl]);
        assert(head[2 + nl] == a3[2 + nl] && a3[2 + nl] == a2[2 + nl]);
        assert(s[i + (1 + nl)] == r[1 + nl] && r[1 + nl] == head[1 + nl]);
        assert(s[i + (2 + nl)] == r[2 + nl] && r[2 + nl] == head[2 + nl]);
        assert(s[i + 1 + nl] == '=');
        assert(s[i + 2 + nl] == '"');
        assert(!is_name_char(s[i + 1 + nl]));
        assert(is_name_char(s[i + 1]) && !is_ws(s[i + 1])) by {
            assert(s[i + 1] == name[0]);
        }
        lemma_ws_run(s, i, i + 1);
        lemma_name_end_run(s, i + 1, i + 1 + nl);
        // the escaped value sits between the quotes
        let vstart = i + 3 + nl;
        assert forall|k: int| 0 <= k < el implies s[vstart + k] == esc_str(val)[k] by {
            let w = 3 + nl + k;
            assert(s[i + w] == r[w]);
            assert(r[w] == head[w] && head[w] == a3[w]);
            assert(a3[w] == esc_str(val)[w - (3 + nl)]);
        }
        assert(s.subrange(vstart, vstart + el) =~= esc_str(val));
        assert(s[vstart + el] == '"') by {
            let w = 3 + nl + el;
            assert(s[i + w] == r[w]);
            assert(r[w] == head[w]);
            assert(head[w] == '"');
        }
        lemma_scan_escaped(s, vstart, val, '"');
        let m = vstart + el;
        // the rest of the list follows the closing quote
        assert forall|k: int| 0 <= k < rest.len() implies s[m + 1 + k] == rest[k] by {
            let w = 4 + nl + el + k;
            assert(s[i + w] == r[w]);
            assert(r[w] == rest[w - head.len()]);
        }
        assert(s.subrange(m + 1, m + 1 + rest.len()) =~= rest);
        lemma_attrs_render(s, m + 1, attrs, idx + 1);
        assert(local_name(name) == name);
        assert(seq![(name, val)] + attrs.subrange(idx + 1, attrs.len() as int) =~= attrs.subrange(
            idx,
            attrs.len() as int,
        ));
    }
}

/// The element parser recovers a rendered element exactly.
proof fn lemma_element_render(s: Seq<char>, i: int, e: ElemV)
    requires
        wire_safe_elem(e),
        0 <= i,
        i + render_elem(e).len() <= s.len(),
        s.subrange(i, i + render_elem(e).len()) == render_elem(e),
    ensures
        sp_element(s, i) == Some((e, i + render_elem(e).len())),
    decreases e, 0int,
{
    let r = render_elem(e);
    let nl = e.name.len() as int;
    let al = render_attrs(e.attrs, 0).len() as int;
    assert forall|k: int| 0 <= k < r.len() implies s[i + k] == r[k] by {
        assert(s.subrange(i, i + r.len())[k] == s[i + k]);
    }
    let a1 = seq!['<'] + e.name;
    let a2 = a1 + render_attrs(e.attrs, 0);
    // the opening `<` and the name
    assert(a1[0] == '<');
    assert(s[i + 0] == r[0]);
    if e.children.len() == 0 {
        assert(r == a2 + seq!['/', '>']);
    } else {
        let a3 = a2 + seq!['>'] + render_nodes(e.children, 0) + seq!['<', '/'] + e.name;
        assert(r == a3 + seq!['>']);
    }
    assert(r[0] == '<') by {
        if e.children.len() == 0 {
            assert(r[0] == a2[0] && a2[0] == a1[0]);
        } else {
            assert(r[0] == (a2 + seq!['>'] + render_nodes(e.children, 0) + seq!['<', '/']
                + e.name)[0]);
            assert((a2 + seq!['>'])[0] == a2[0] && a2[0] == a1[0]);
        }
    }
    assert(s[i] == '<');
    assert forall|k: int| 0 <= k < nl + 1 + al implies s[i + k] == a2[k] by {
        assert(s[i + k] == r[k]);
        if e.children.len() == 0 {
            assert(r[k] == a2[k]);
        } else {
            assert(r[k] == a2[k]);
        }
    }
    assert forall|k: int| i + 1 <= k < i + 1 + nl implies is_name_char(#[trigger] s[k]) by {
        let w = k - i;
        assert(s[i + w] == a2[w] && a2[w] == a1[w] && a1[w] == e.name[w - 1]);
    }
    assert forall|k: int| 0 <= k < nl implies s.subrange(i + 1, i + 1 + nl)[k] == e.name[k] by {
        let w = k + 1;
        assert(s[i + w] == a2[w] && a2[w] == a1[w] && a1[w] == e.name[w - 1]);
    }
    assert(s.subrange(i + 1, i + 1 + nl) =~= e.name);
    // the character after the name is never a name character: a space when
    // attributes follow, the tag end otherwise
    let pa = i + 1 + nl;
    if e.attrs.len() > 0 {
        assert(render_attrs(e.attrs, 0)[0] == ' ');
        assert(s[i + (1 + nl)] == a2[1 + nl] && a2[1 + nl] == render_attrs(e.attrs, 0)[0]);
        assert(!is_name_char(s[pa]));
    } else {
        assert(al == 0);
        if e.children.len() == 0 {
            assert(s[i + (1 + nl)] == r[1 + nl] && r[1 + nl] == '/');
        } else {
            assert(s[i + (1 + nl)] == r[1 + nl] && r[1 + nl] == '>');
        }
        assert(!is_name_char(s[pa]));
    }
    lemma_name_end_run(s, i + 1, pa);
    assert(s[i + 1] == e.name[0] && is_name_char(s[i + 1]));
    // the attribute list, terminated by `/` or `>`
    assert forall|k: int| 0 <= k < al implies s.subrange(pa, pa + al)[k] == render_attrs(
        e.attrs,
        0,
    )[k] by {
        let w = 1 + nl + k;
        assert(s[i + w] == a2[w] && a2[w] == render_attrs(e.attrs, 0)[w - (1 + nl)]);
    }
    assert(s.subrange(pa, pa + al) =~= render_attrs(e.attrs, 0));
    let pe = pa + al;
    if e.children.len() == 0 {
        assert(s[i + (1 + nl + al)] == r[1 + nl + al] && r[1 + nl + al] == '/');
        assert(s[i + (1 + nl + al + 1)] == r[1 + nl + al + 1] && r[1 + nl + al + 1] == '>');
        lemma_attrs_render(s, pa, e.attrs, 0);
        assert(e.attrs.subrange(0, e.attrs.len() as int) =~= e.attrs);
        assert(local_name(e.name) == e.name);
        assert(sp_element(s, i) == Some(
            (ElemV { name: local_name(s.subrange(i + 1, pa)), attrs: e.attrs, children: Seq::empty() }, pe + 2),
        ));
        assert(s.subrange(i + 1, pa) == e.name);
        assert(local_name(s.subrange(i + 1, pa)) == e.name);
        assert(Seq::<NodeV>::empty() =~= e.children);
        assert(ElemV {
            name: local_name(s.subrange(i + 1, pa)),
            attrs: e.attrs,
            children: Seq::empty(),
        } == e);
    } else {
        let a3 = a2 + seq!['>'] + render_nodes(e.children, 0) + seq!['<', '/'] + e.name;
        let cl = render_nodes(e.children, 0).len() as int;
        assert(s[i + (1 + nl + al)] == r[1 + nl + al]);
        assert(r[1 + nl + al] == '>') by {
            assert(r[1 + nl + al] == a3[1 + nl + al]);
            assert(a3[1 + nl + al] == (a2 + seq!['>'])[1 + nl + al]);
        }
        lemma_attrs_render(s, pa, e.attrs, 0);
        assert(e.attrs.subrange(0, e.attrs.len() as int) =~= e.attrs);
        // the content region, then `</name>`
        let pc = pe + 1;
        assert forall|k: int| 0 <= k < cl implies s.subrange(pc, pc + cl)[k] == render_nodes(
            e.children,
            0,
        )[k] by {
            let w = 2 + nl + al + k;
            assert(s[i + w] == r[w]);
            assert(r[w] == a3[w]);
            assert(a3[w] == ((a2 + seq!['>']) + render_nodes(e.children, 0))[w]);
        }
        assert(s.subrange(pc, pc + cl) =~= render_nodes(e.children, 0));
        let pm = pc + cl;
        assert(s[i + (2 + nl + al + cl)] == r[2 + nl + al + cl]);
        assert(r[2 + nl + al + cl] == '<') by {
            assert(r[2 + nl + al + cl] == a3[2 + nl + al + cl]);
            assert(a3[2 + nl + al + cl] == (((a2 + seq!['>']) + render_nodes(e.children, 0))
                + seq!['<', '/'])[2 + nl + al + cl]);
        }
        assert(s[i + (3 + nl + al + cl)] == r[3 + nl + al + cl]);
        assert(r[3 + nl + al + cl] == '/') by {
            assert(r[3 + nl + al + cl] == a3[3 + nl + al + cl]);
            assert(a3[3 + nl + al + cl] == (((a2 + seq!['>']) + render_nodes(e.children, 0))
                + seq!['<', '/'])[3 + nl + al + cl]);
        }
        lemma_content_render(s, pc, e.children);
        // the closing tag name matches the opening one
        assert forall|k: int| pm + 2 <= k < pm + 2 + nl implies is_name_char(#[trigger] s[k]) by {
            let w = k - i;
            assert(s[i + w] == r[w]);
            assert(r[w] == a3[w]);
            assert(a3[w] == e.name[w - (4 + nl + al + cl)]);
        }
        assert forall|k: int| 0 <= k < nl implies s.subrange(pm + 2, pm + 2 + nl)[k]
            == e.name[k] by {
            let w = 4 + nl + al + cl + k;
            assert(s[i + w] == r[w]);
            assert(r[w] == a3[w]);
            assert(a3[w] == e.name[w - (4 + nl + al + cl)]);
        }
        assert(s.subrange(pm + 2, pm + 2 + nl) =~= e.name);
        let pz = pm + 2 + nl;
        assert(s[i + (4 + nl + al + cl + nl)] == r[4 + nl + al + cl + nl]);
        assert(r[4 + nl + al + cl + nl] == '>') by {
            assert(r[4 + nl + al + cl + nl] == (a3 + seq!['>'])[4 + nl + al + cl + nl]);
        }
        assert(s[pz] == '>');
        assert(!is_name_char(s[pz]));
        lemma_name_end_run(s, pm + 2, pz);
        lemma_ws_run(s, pz, pz);
        assert(local_name(e.name) == e.name);
        assert(sp_element(s, i) == Some(
            (
                ElemV {
                    name: local_name(s.subrange(i + 1, pa)),
                    attrs: e.attrs,
                    children: e.children,
                },
                pz + 1,
            ),
        ));
        assert(ElemV {
            name: local_name(s.subrange(i + 1, pa)),
            attrs: e.attrs,
            children: e.children,
        } =~= e);
        assert(pz + 1 == i + r.len());
    }
}

/// The content parser recovers a rendered child list exactly, stopping at
/// the `</` of the end tag that follows it.
proof fn lemma_content_render(s: Seq<char>, i: int, ch: Seq<NodeV>)
    requires
        wire_safe_nodes(ch),
        0 <= i,
        i + render_nodes(ch, 0).len() + 2 <= s.len(),
        s.subrange(i, i + render_nodes(ch, 0).len()) == render_nodes(ch, 0),
        s[i + render_nodes(ch, 0).len()] == '<',
        s[i + render_nodes(ch, 0).len() + 1] == '/',
    ensures
        sp_content(s, i) == Some((ch, i + render_nodes(ch, 0).len())),
    decreases ch, 1int,
{
    let r = render_nodes(ch, 0);
    assert forall|k: int| 0 <= k < r.len() implies s[i + k] == r[k] by {
        assert(s.subrange(i, i + r.len())[k] == s[i + k]);
    }
    if ch.len() == 0 {
        assert(r.len() == 0);
    } else {
        let node = ch[0];
        let rest = ch.drop_first();
        let nr = render_node(node);
        let rr = render_nodes(ch, 1);
        assert(r == nr + rr);
        assert(render_nodes(rest, 0) =~= rr) by {
            lemma_render_nodes_shift(ch, 1);
        }
        // the remainder region, and the terminator after it
        assert forall|k: int| 0 <= k < rr.len() implies s.subrange(
            i + nr.len(),
            i + r.len(),
        )[k] == rr[k] by {
            let w = nr.len() + k;
            assert(s[i + w] == r[w]);
            assert(r[w] == rr[w - nr.len()]);
        }
        assert(s.subrange(i + nr.len(), i + r.len()) =~= render_nodes(rest, 0));
        match node {
            NodeV::Text(t) => {
                assert(nr == esc_str(t));
                // the character after the text run is a `<`: either the end
                // tag, or the next child, which cannot be text again
                assert(s[i + nr.len()] == '<') by {
                    if rest.len() == 0 {
                        assert(r.len() == nr.len());
                    } else {
                        assert(wire_safe_nodes(rest));
                        assert(wire_safe_node(rest[0]));
                        match rest[0] {
                            NodeV::Text(_) => {
                                assert(ch[1] is Text);
                                assert(false);
                            },
                            NodeV::Elem(e2) => {
                                assert(wire_safe_elem(e2));
                                lemma_render_elem_starts(e2);
                                assert(rr[0] == render_node(rest[0])[0]) by {
                                    lemma_render_nodes_shift(ch, 1);
                                    assert(render_nodes(rest, 0)[0] == (render_node(rest[0])
                                        + render_nodes(rest, 1))[0]);
                                }
                                assert(s[i + nr.len()] == r[nr.len() as int]);
                                assert(r[nr.len() as int] == rr[0]);
                            },
                        }
                    }
                }
                assert(wire_safe_node(ch[0]));
                assert(t.len() > 0);
                assert(s.subrange(i, i + nr.len()) =~= esc_str(t));
                lemma_scan_escaped(s, i, t, '<');
                lemma_esc_str_len(t);
                // the first character of the run is not `<`
                assert(s[i] != '<') by {
                    assert(esc_str(t) == esc_char(t[0]) + esc_str(t.drop_first()));
                    assert(s[i + 0] == r[0]);
                    assert(r[0] == nr[0]);
                    assert(nr[0] == esc_char(t[0])[0]);
                    if t[0] == '&' || t[0] == '<' || t[0] == '>' || t[0] == '"' || t[0] == '\'' {
                        assert(esc_char(t[0])[0] == '&');
                    } else {
                        assert(esc_char(t[0])[0] == t[0]);
                    }
                }
                lemma_content_render(s, i + nr.len(), rest);
                assert(seq![NodeV::Text(t)] + rest =~= ch);
            },
            NodeV::Elem(e0) => {
                assert(wire_safe_node(ch[0]));
                assert(wire_safe_elem(e0));
                assert(nr == render_elem(e0));
                assert forall|k: int| 0 <= k < nr.len() implies s.subrange(
                    i,
                    i + nr.len(),
                )[k] == nr[k] by {
                    assert(s[i + k] == r[k]);
                    assert(r[k] == nr[k]);
                }
                assert(s.subrange(i, i + nr.len()) =~= render_elem(e0));
                lemma_element_render(s, i, e0);
                lemma_render_elem_starts(e0);
                assert(s[i + 0] == r[0] && r[0] == nr[0]);
                assert(s[i] == '<');
                // the second character is the name's first, never `/`
                assert(s[i + 1] == e0.name[0] && is_name_char(s[i + 1])) by {
                    assert(s[i + 1] == r[1] && r[1] == nr[1]);
                    lemma_render_elem_starts(e0);
                }
                assert(s[i + 1] != '/');
                lemma_content_render(s, i + nr.len(), rest);
                assert(seq![NodeV::Elem(e0)] + rest =~= ch);
            },
        }
    }
}

/// A rendered element begins with `<` and its name's first character.
proof fn lemma_render_elem_starts(e: ElemV)
    requires
        safe_name(e.name),
    ensures
        render_elem(e).len() >= 2,
        render_elem(e)[0] == '<',
        render_elem(e)[1] == e.name[0],
{
    let a1 = seq!['<'] + e.name;
    let a2 = a1 + render_attrs(e.attrs, 0);
    if e.children.len() == 0 {
        assert(render_elem(e) == a2 + seq!['/', '>']);
        assert(render_elem(e)[0] == a2[0] && a2[0] == a1[0]);
        assert(render_elem(e)[1] == a2[1] && a2[1] == a1[1]);
    } else {
        let a3 = a2 + seq!['>'] + render_nodes(e.children, 0) + seq!['<', '/'] + e.name;
        assert(render_elem(e) == a3 + seq!['>']);
        assert(render_elem(e)[0] == a3[0]);
        assert(a3[0] == a2[0] && a2[0] == a1[0]);
        assert(render_elem(e)[1] == a3[1]);
        assert(a3[1] == a2[1] && a2[1] == a1[1]);
    }
}

/// Rendering from position 1 equals rendering the tail from position 0.
proof fn lemma_render_nodes_shift(ch: Seq<NodeV>, j: int)
    requires
        0 <= j <= ch.len(),
    ensures
        render_nodes(ch.skip(j), 0) == render_nodes(ch, j),
    decreases ch.len() - j,
{
    if j < ch.len() {
        lemma_render_nodes_shift(ch, j + 1);
        assert(ch.skip(j).drop_first() =~= ch.skip(j + 1));
        assert(ch.skip(j)[0] == ch[j]);
        assert(render_nodes(ch.skip(j), 0) == render_node(ch.skip(j)[0]) + render_nodes(
            ch.skip(j),
            1,
        ));
        lemma_render_nodes_shift(ch.skip(j), 1);
        assert(ch.skip(j).skip(1) =~= ch.skip(j + 1));
    }
}

/// The prolog scan ends right after the first `?>` pair.
proof fn lemma_prolog_scan(s: Seq<char>, i: int, j: int)
    requires
        0 <= i <= j,
        j + 1 < s.len(),
        forall|k: int| i <= k < j ==> !(#[trigger] s[k] == '?' && s[k + 1] == '>'),
        s[j] == '?',
        s[j + 1] == '>',
    ensures
        sp_prolog_end(s, i) == Some(j + 2),
    decreases j - i,
{
    if i < j {
        lemma_prolog_scan(s, i + 1, j);
    }
}

/// The parser inverts the renderer: a wire-safe tree rendered as a whole
/// document parses back to exactly itself.
pub proof fn lemma_parse_render_round_trip(e: ElemV)
    requires
        wire_safe_elem(e),
    ensures
        spec_parse_document(render_document(e)) == Some(e),
{
    let s = render_document(e);
    let p = spec_prolog();
    let r = render_elem(e);
    reveal_strlit("<?xml version=\"1.0\" encoding=\"UTF-8\"?>");
    assert(p.len() == 38);
    assert(s == p + r);
    lemma_render_elem_starts(e);
    assert forall|k: int| 0 <= k < 38 implies s[k] == p[k] by {
        assert((p + r)[k] == p[k]);
    }
    assert(s[0] == '<');
    assert(s[1] == '?');
    assert(s.len() >= 2);
    // the first `?>` pair of the document sits at the prolog's end
    assert forall|k: int| 2 <= k < 36 implies !(s[k] == '?' && #[trigger] s[k + 1] == '>') by {
        assert(s[k] == p[k]);
        if k + 1 < 38 {
            assert(s[k + 1] == p[k + 1]);
        }
    }
    assert(s[36] == '?');
    assert(s[37] == '>');
    lemma_prolog_scan(s, 2, 36);
    // no whitespace separates the prolog from the root element
    assert(s[38int + 0] == (p + r)[38]);
    assert((p + r)[38] == r[0]);
    assert(s[38] == '<');
    assert(!is_ws(s[38]));
    lemma_ws_run(s, 38, 38);
    // the root element fills the rest of the document
    assert forall|k: int| 0 <= k < r.len() implies s.subrange(38, 38 + r.len() as int)[k] == r[k] by {
        assert(s.subrange(38, 38 + r.len() as int)[k] == s[38 + k]);
        assert((p + r)[38 + k] == r[k]);
    }
    assert(s.subrange(38, 38 + r.len() as int) =~= r);
    lemma_element_render(s, 38, e);
    lemma_ws_run(s, s.len() as int, s.len() as int);
}

} // verus!
