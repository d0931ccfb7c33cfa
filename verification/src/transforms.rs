//! Marshaling between wire sub-trees and the domain records. Required
//! fields fail the whole record on the first failure; optional fields
//! degrade to absent.

use vstd::prelude::*;
use crate::rpser::xml::{Element, XMLNode, ElemV, NodeV, Error as XmlError, ErrorV,
    spec_descend, spec_path, lemma_spec_path_index, spec_as_long, spec_as_int, spec_as_boolean,
    spec_as_string, spec_as_datetime};
use crate::datetime::DateTimeValue;
use crate::page::{Page, PageV, PageSummary, PageSummaryV};
use crate::space::{Space, SpaceV};
use crate::server_info::{RemoteServerInfo, RemoteServerInfoV};
use crate::attachment::{AttachmentResponse, AttachmentResponseV};

verus! {

/// Construct a domain record from a wire sub-tree.
pub trait FromXMLNode where Self: Sized {
    fn from_node(node: XMLNode) -> Result<Self, XmlError>;
}

/// The node of the child named `name`: descent by one level, the error
/// carrying that one-segment path.
pub open spec fn spec_field(e: ElemV, name: Seq<char>) -> Result<NodeV, ErrorV> {
    match spec_descend(e, seq![name]) {
        Some(nd) => Ok(nd),
        None => Err(ErrorV::NotFoundAtPath { path: seq![name] }),
    }
}

/// A required `long` field.
pub open spec fn spec_field_long(e: ElemV, name: Seq<char>) -> Result<i64, ErrorV> {
    match spec_field(e, name) {
        Ok(nd) => spec_as_long(nd),
        Err(x) => Err(x),
    }
}

/// A required `int` field.
pub open spec fn spec_field_int(e: ElemV, name: Seq<char>) -> Result<i32, ErrorV> {
    match spec_field(e, name) {
        Ok(nd) => spec_as_int(nd),
        Err(x) => Err(x),
    }
}

/// A required `boolean` field.
pub open spec fn spec_field_boolean(e: ElemV, name: Seq<char>) -> Result<bool, ErrorV> {
    match spec_field(e, name) {
        Ok(nd) => spec_as_boolean(nd),
        Err(x) => Err(x),
    }
}

/// A required `string` field.
pub open spec fn spec_field_string(e: ElemV, name: Seq<char>) -> Result<Seq<char>, ErrorV> {
    match spec_field(e, name) {
        Ok(nd) => spec_as_string(nd),
        Err(x) => Err(x),
    }
}

/// A required `dateTime` field.
pub open spec fn spec_field_datetime(e: ElemV, name: Seq<char>) -> Result<DateTimeValue, ErrorV> {
    match spec_field(e, name) {
        Ok(nd) => spec_as_datetime(nd),
        Err(x) => Err(x),
    }
}

/// A field read as raw text: the child must exist, but it counts as text
/// only when the reached node is itself a text node.
pub open spec fn spec_field_text(e: ElemV, name: Seq<char>) -> Result<Option<Seq<char>>, ErrorV> {
    match spec_field(e, name) {
        Ok(nd) => Ok(
            match nd {
                NodeV::Text(t) => Some(t),
                NodeV::Elem(_) => None,
            },
        ),
        Err(x) => Err(x),
    }
}

/// Fetch the child node named `name`, exactly as [`spec_field`] says.
pub fn field_node(e: &Element, name: &str) -> (r: Result<XMLNode, XmlError>)
    ensures
        match r {
            Ok(nd) => spec_field(e@, name@) == Ok::<NodeV, ErrorV>(nd@),
            Err(err) => spec_field(e@, name@) == Err::<NodeV, ErrorV>(err@),
        },
{
    let p: [&str; 1] = [name];
    proof {
        assert(p@.len() == 1);
        lemma_spec_path_index(p@);
        assert(spec_path(p@) =~= seq![name@]);
    }
    e.get_at_path(p.as_slice())
}

/// A required `long` field, exactly as [`spec_field_long`] says.
pub fn field_long(e: &Element, name: &str) -> (r: Result<i64, XmlError>)
    ensures
        match r {
            Ok(v) => spec_field_long(e@, name@) == Ok::<i64, ErrorV>(v),
            Err(err) => spec_field_long(e@, name@) == Err::<i64, ErrorV>(err@),
        },
{
    match field_node(e, name) {
        Ok(nd) => nd.as_long(),
        Err(err) => Err(err),
    }
}

/// A required `int` field, exactly as [`spec_field_int`] says.
pub fn field_int(e: &Element, name: &str) -> (r: Result<i32, XmlError>)
    ensures
        match r {
            Ok(v) => spec_field_int(e@, name@) == Ok::<i32, ErrorV>(v),
            Err(err) => spec_field_int(e@, name@) == Err::<i32, ErrorV>(err@),
        },
{
    match field_node(e, name) {
        Ok(nd) => nd.as_int(),
        Err(err) => Err(err),
    }
}

/// A required `boolean` field, exactly as [`spec_field_boolean`] says.
pub fn field_boolean(e: &Element, name: &str) -> (r: Result<bool, XmlError>)
    ensures
        match r {
            Ok(v) => spec_field_boolean(e@, name@) == Ok::<bool, ErrorV>(v),
            Err(err) => spec_field_boolean(e@, name@) == Err::<bool, ErrorV>(err@),
        },
{
    match field_node(e, name) {
        Ok(nd) => nd.as_boolean(),
        Err(err) => Err(err),
    }
}

/// A required `string` field, exactly as [`spec_field_string`] says.
pub fn field_string(e: &Element, name: &str) -> (r: Result<String, XmlError>)
    ensures
        match r {
            Ok(v) => spec_field_string(e@, name@) == Ok::<Seq<char>, ErrorV>(v@),
            Err(err) => spec_field_string(e@, name@) == Err::<Seq<char>, ErrorV>(err@),
        },
{
    match field_node(e, name) {
        Ok(nd) => nd.as_string(),
        Err(err) => Err(err),
    }
}

/// A required `dateTime` field, exactly as [`spec_field_datetime`] says.
pub fn field_datetime(e: &Element, name: &str) -> (r: Result<DateTimeValue, XmlError>)
    ensures
        match r {
            Ok(v) => spec_field_datetime(e@, name@) == Ok::<DateTimeValue, ErrorV>(v),
            Err(err) => spec_field_datetime(e@, name@) == Err::<DateTimeValue, ErrorV>(err@),
        },
{
    match field_node(e, name) {
        Ok(nd) => nd.as_datetime(),
        Err(err) => Err(err),
    }
}

/// A raw-text field, exactly as [`spec_field_text`] says.
pub fn field_text(e: &Element, name: &str) -> (r: Result<Option<String>, XmlError>)
    ensures
        match r {
            Ok(Some(v)) => spec_field_text(e@, name@) == Ok::<Option<Seq<char>>, ErrorV>(
                Some(v@),
            ),
            Ok(None) => spec_field_text(e@, name@) == Ok::<Option<Seq<char>>, ErrorV>(None),
            Err(err) => spec_field_text(e@, name@) == Err::<Option<Seq<char>>, ErrorV>(err@),
        },
{
    match field_node(e, name) {
        Ok(nd) => Ok(nd.as_text()),
        Err(err) => Err(err),
    }
}

/// An optional raw-text field: absent — rather than failing the record —
/// when the child is missing or the reached node is not itself text.
pub open spec fn spec_opt_text(e: ElemV, name: Seq<char>) -> Option<Seq<char>> {
    match spec_field_text(e, name) {
        Ok(o) => o,
        Err(_) => None,
    }
}

/// An optional raw-text field, exactly as [`spec_opt_text`] says.
pub fn opt_text(e: &Element, name: &str) -> (r: Option<String>)
    ensures
        match r {
            Some(v) => spec_opt_text(e@, name@) == Some(v@),
            None => spec_opt_text(e@, name@) is None,
        },
{
    match field_text(e, name) {
        Ok(Some(v)) => Some(v),
        Ok(None) => None,
        Err(_) => None,
    }
}

/// Marshaling of a [`Space`]: the node must be an element; the typed
/// leaves are required, while `description` and `space_group` are optional
/// raw-text reads that degrade to absent instead of failing the record.
/// `space_group` deliberately reads the `name` child, as the wire shape
/// has it.
pub open spec fn spec_space_from_node(n: NodeV) -> Result<SpaceV, ErrorV> {
    match n {
        NodeV::Text(_) => Err(ErrorV::ExpectedElement { found: n }),
        NodeV::Elem(e) => {
            let description = spec_opt_text(e, "description"@);
            let space_group = spec_opt_text(e, "name"@);
            match spec_field_long(e, "homePage"@) {
                Err(x) => Err(x),
                Ok(home_page) => match spec_field_string(e, "key"@) {
                    Err(x) => Err(x),
                    Ok(key) => match spec_field_string(e, "name"@) {
                        Err(x) => Err(x),
                        Ok(name) => match spec_field_string(e, "type"@) {
                            Err(x) => Err(x),
                            Ok(space_type) => match spec_field_string(e, "url"@) {
                                Err(x) => Err(x),
                                Ok(url) => Ok(
                                    SpaceV {
                                        description,
                                        home_page,
                                        key,
                                        name,
                                        space_group,
                                        space_type,
                                        url,
                                    },
                                ),
                            },
                        },
                    },
                },
            }
        },
    }
}

impl Space {
    /// Build a [`Space`] from a wire sub-tree, exactly as
    /// [`spec_space_from_node`] says.
    pub fn read_node(node: XMLNode) -> (r: Result<Space, XmlError>)
        ensures
            match r {
                Ok(v) => spec_space_from_node(node@) == Ok::<SpaceV, ErrorV>(v@),
                Err(err) => spec_space_from_node(node@) == Err::<SpaceV, ErrorV>(err@),
            },
    {
        let element = match node {
            XMLNode::Element(element) => element,
            XMLNode::Text(t) => {
                return Err(XmlError::ExpectedElement { found: XMLNode::Text(t) });
            },
        };
        let description = opt_text(&element, "description");
        let home_page = match field_long(&element, "homePage") {
            Ok(v) => v,
            Err(err) => {
                return Err(err);
            },
        };
        let key = match field_string(&element, "key") {
            Ok(v) => v,
            Err(err) => {
                return Err(err);
            },
        };
        let name = match field_string(&element, "name") {
            Ok(v) => v,
            Err(err) => {
                return Err(err);
            },
        };
        let space_group = opt_text(&element, "name");
        let space_type = match field_string(&element, "type") {
            Ok(v) => v,
            Err(err) => {
                return Err(err);
            },
        };
        let url = match field_string(&element, "url") {
            Ok(v) => v,
            Err(err) => {
                return Err(err);
            },
        };
        Ok(Space { description, home_page, key, name, space_group, space_type, url })
    }
}

impl FromXMLNode for Space {
    fn from_node(node: XMLNode) -> (r: Result<Space, XmlError>)
        ensures
            match r {
                Ok(v) => spec_space_from_node(node@) == Ok::<SpaceV, ErrorV>(v@),
                Err(err) => spec_space_from_node(node@) == Err::<SpaceV, ErrorV>(err@),
            },
    {
        Space::read_node(node)
    }
}

/// Marshaling of a [`Page`]: every field required, in wire order.
pub open spec fn spec_page_from_node(n: NodeV) -> Result<PageV, ErrorV> {
    match n {
        NodeV::Text(_) => Err(ErrorV::ExpectedElement { found: n }),
        NodeV::Elem(e) => match spec_field_long(e, "id"@) {
            Err(x) => Err(x),
            Ok(id) => match spec_field_string(e, "space"@) {
                Err(x) => Err(x),
                Ok(space) => match spec_field_long(e, "parentId"@) {
                    Err(x) => Err(x),
                    Ok(parent_id) => match spec_field_string(e, "title"@) {
                        Err(x) => Err(x),
                        Ok(title) => match spec_field_string(e, "url"@) {
                            Err(x) => Err(x),
                            Ok(url) => match spec_field_int(e, "version"@) {
                                Err(x) => Err(x),
                                Ok(version) => match spec_field_string(e, "content"@) {
                                    Err(x) => Err(x),
                                    Ok(content) => match spec_field_datetime(e, "created"@) {
                                        Err(x) => Err(x),
                                        Ok(created) => match spec_field_string(e, "creator"@) {
                                            Err(x) => Err(x),
                                            Ok(creator) => match spec_field_datetime(
                                                e,
                                                "modified"@,
                                            ) {
                                                Err(x) => Err(x),
                                                Ok(modified) => match spec_field_string(
                                                    e,
                                                    "modifier"@,
                                                ) {
                                                    Err(x) => Err(x),
                                                    Ok(modifier) => match spec_field_boolean(
                                                        e,
                                                        "homePage"@,
                                                    ) {
                                                        Err(x) => Err(x),
                                                        Ok(home_page) => match spec_field_string(
                                                            e,
                                                            "contentStatus"@,
                                                        ) {
                                                            Err(x) => Err(x),
                                                            Ok(content_status) => match spec_field_boolean(
                                                                e,
                                                                "current"@,
                                                            ) {
                                                                Err(x) => Err(x),
                                                                Ok(current) => Ok(
                                                                    PageV {
                                                                        id,
                                                                        space,
                                                                        parent_id,
                                                                        title,
                                                                        url,
                                                                        version,
                                                                        content,
                                                                        created,
                                                                        creator,
                                                                        modified,
                                                                        modifier,
                                                                        home_page,
                                                                        content_status,
                                                                        current,
                                                                    },
                                                                ),
                                                            },
                                                        },
                                                    },
                                                },
                                            },
                                        },
                                    },
                                },
                            },
                        },
                    },
                },
            },
        },
    }
}

impl Page {
    /// Build a [`Page`] from a wire sub-tree, exactly as
    /// [`spec_page_from_node`] says.
    pub fn read_node(node: XMLNode) -> (r: Result<Page, XmlError>)
        ensures
            match r {
                Ok(v) => spec_page_from_node(node@) == Ok::<PageV, ErrorV>(v@),
                Err(err) => spec_page_from_node(node@) == Err::<PageV, ErrorV>(err@),
            },
    {
        let element = match node {
            XMLNode::Element(element) => element,
            XMLNode::Text(t) => {
                return Err(XmlError::ExpectedElement { found: XMLNode::Text(t) });
            },
        };
        let id = match field_long(&element, "id") {
            Ok(v) => v,
            Err(err) => {
                return Err(err);
            },
        };
        let space = match field_string(&element, "space") {
            Ok(v) => v,
            Err(err) => {
                return Err(err);
            },
        };
        let parent_id = match field_long(&element, "parentId") {
            Ok(v) => v,
            Err(err) => {
                return Err(err);
            },
        };
        let title = match field_string(&element, "title") {
            Ok(v) => v,
            Err(err) => {
                return Err(err);
            },
        };
        let url = match field_string(&element, "url") {
            Ok(v) => v,
            Err(err) => {
                return Err(err);
            },
        };
        let version = match field_int(&element, "version") {
            Ok(v) => v,
            Err(err) => {
                return Err(err);
            },
        };
        let content = match field_string(&element, "content") {
            Ok(v) => v,
            Err(err) => {
                return Err(err);
            },
        };
        let created = match field_datetime(&element, "created") {
            Ok(v) => v,
            Err(err) => {
                return Err(err);
            },
        };
        let creator = match field_string(&element, "creator") {
            Ok(v) => v,
            Err(err) => {
                return Err(err);
            },
        };
        let modified = match field_datetime(&element, "modified") {
            Ok(v) => v,
            Err(err) => {
                return Err(err);
            },
        };
        let modifier = match field_string(&element, "modifier") {
            Ok(v) => v,
            Err(err) => {
                return Err(err);
            },
        };
        let home_page = match field_boolean(&element, "homePage") {
            Ok(v) => v,
            Err(err) => {
                return Err(err);
            },
        };
        let content_status = match field_string(&element, "contentStatus") {
            Ok(v) => v,
            Err(err) => {
                return Err(err);
            },
        };
        let current = match field_boolean(&element, "current") {
            Ok(v) => v,
            Err(err) => {
                return Err(err);
            },
        };
        Ok(
            Page {
                id,
                space,
                parent_id,
                title,
                url,
                version,
                content,
                created,
                creator,
                modified,
                modifier,
                home_page,
                content_status,
                current,
            },
        )
    }
}

impl FromXMLNode for Page {
    fn from_node(node: XMLNode) -> (r: Result<Page, XmlError>)
        ensures
            match r {
                Ok(v) => spec_page_from_node(node@) == Ok::<PageV, ErrorV>(v@),
                Err(err) => spec_page_from_node(node@) == Err::<PageV, ErrorV>(err@),
            },
    {
        Page::read_node(node)
    }
}

/// Marshaling of a [`PageSummary`]: every field required, in wire order.
pub open spec fn spec_page_summary_from_node(n: NodeV) -> Result<PageSummaryV, ErrorV> {
    match n {
        NodeV::Text(_) => Err(ErrorV::ExpectedElement { found: n }),
        NodeV::Elem(e) => match spec_field_long(e, "id"@) {
            Err(x) => Err(x),
            Ok(id) => match spec_field_string(e, "space"@) {
                Err(x) => Err(x),
                Ok(space) => match spec_field_long(e, "parentId"@) {
                    Err(x) => Err(x),
                    Ok(parent_id) => match spec_field_string(e, "title"@) {
                        Err(x) => Err(x),
                        Ok(title) => match spec_field_string(e, "url"@) {
                            Err(x) => Err(x),
                            Ok(url) => Ok(PageSummaryV { id, space, parent_id, title, url }),
                        },
                    },
                },
            },
        },
    }
}

impl PageSummary {
    /// Build a [`PageSummary`] from a wire sub-tree, exactly as
    /// [`spec_page_summary_from_node`] says.
    pub fn read_node(node: XMLNode) -> (r: Result<PageSummary, XmlError>)
        ensures
            match r {
                Ok(v) => spec_page_summary_from_node(node@) == Ok::<PageSummaryV, ErrorV>(v@),
                Err(err) => spec_page_summary_from_node(node@) == Err::<PageSummaryV, ErrorV>(
                    err@,
                ),
            },
    {
        let element = match node {
            XMLNode::Element(element) => element,
            XMLNode::Text(t) => {
                return Err(XmlError::ExpectedElement { found: XMLNode::Text(t) });
            },
        };
        let id = match field_long(&element, "id") {
            Ok(v) => v,
            Err(err) => {
                return Err(err);
            },
        };
        let space = match field_string(&element, "space") {
            Ok(v) => v,
            Err(err) => {
                return Err(err);
            },
        };
        let parent_id = match field_long(&element, "parentId") {
            Ok(v) => v,
            Err(err) => {
                return Err(err);
            },
        };
        let title = match field_string(&element, "title") {
            Ok(v) => v,
            Err(err) => {
                return Err(err);
            },
        };
        let url = match field_string(&element, "url") {
            Ok(v) => v,
            Err(err) => {
                return Err(err);
            },
        };
        Ok(PageSummary { id, space, parent_id, title, url })
    }
}

impl FromXMLNode for PageSummary {
    fn from_node(node: XMLNode) -> (r: Result<PageSummary, XmlError>)
        ensures
            match r {
                Ok(v) => spec_page_summary_from_node(node@) == Ok::<PageSummaryV, ErrorV>(v@),
                Err(err) => spec_page_summary_from_node(node@) == Err::<PageSummaryV, ErrorV>(
                    err@,
                ),
            },
    {
        PageSummary::read_node(node)
    }
}

/// Marshaling of a [`RemoteServerInfo`]: the two identifiers are optional,
/// the build flag and the three version numbers required.
pub open spec fn spec_server_info_from_node(n: NodeV) -> Result<RemoteServerInfoV, ErrorV> {
    match n {
        NodeV::Text(_) => Err(ErrorV::ExpectedElement { found: n }),
        NodeV::Elem(e) => {
            let base_url = match spec_field_string(e, "baseUrl"@) {
                Ok(v) => Some(v),
                Err(_) => None,
            };
            let build_id = match spec_field_string(e, "buildId"@) {
                Ok(v) => Some(v),
                Err(_) => None,
            };
            match spec_field_boolean(e, "developmentBuild"@) {
                Err(x) => Err(x),
                Ok(development_build) => match spec_field_int(e, "majorVersion"@) {
                    Err(x) => Err(x),
                    Ok(major_version) => match spec_field_int(e, "minorVersion"@) {
                        Err(x) => Err(x),
                        Ok(minor_version) => match spec_field_int(e, "patchLevel"@) {
                            Err(x) => Err(x),
                            Ok(patch_level) => Ok(
                                RemoteServerInfoV {
                                    base_url,
                                    build_id,
                                    development_build,
                                    major_version,
                                    minor_version,
                                    patch_level,
                                },
                            ),
                        },
                    },
                },
            }
        },
    }
}

impl RemoteServerInfo {
    /// Build a [`RemoteServerInfo`] from a wire sub-tree, exactly as
    /// [`spec_server_info_from_node`] says.
    pub fn read_node(node: XMLNode) -> (r: Result<RemoteServerInfo, XmlError>)
        ensures
            match r {
                Ok(v) => spec_server_info_from_node(node@) == Ok::<RemoteServerInfoV, ErrorV>(v@),
                Err(err) => spec_server_info_from_node(node@) == Err::<RemoteServerInfoV, ErrorV>(
                    err@,
                ),
            },
    {
        let element = match node {
            XMLNode::Element(element) => element,
            XMLNode::Text(t) => {
                return Err(XmlError::ExpectedElement { found: XMLNode::Text(t) });
            },
        };
        let base_url = match field_string(&element, "baseUrl") {
            Ok(v) => Some(v),
            Err(_) => None,
        };
        let build_id = match field_string(&element, "buildId") {
            Ok(v) => Some(v),
            Err(_) => None,
        };
        let development_build = match field_boolean(&element, "developmentBuild") {
            Ok(v) => v,
            Err(err) => {
                return Err(err);
            },
        };
        let major_version = match field_int(&element, "majorVersion") {
            Ok(v) => v,
            Err(err) => {
                return Err(err);
            },
        };
        let minor_version = match field_int(&element, "minorVersion") {
            Ok(v) => v,
            Err(err) => {
                return Err(err);
            },
        };
        let patch_level = match field_int(&element, "patchLevel") {
            Ok(v) => v,
            Err(err) => {
                return Err(err);
            },
        };
        Ok(
            RemoteServerInfo {
                base_url,
                build_id,
                development_build,
                major_version,
                minor_version,
                patch_level,
            },
        )
    }
}

impl FromXMLNode for RemoteServerInfo {
    fn from_node(node: XMLNode) -> (r: Result<RemoteServerInfo, XmlError>)
        ensures
            match r {
                Ok(v) => spec_server_info_from_node(node@) == Ok::<RemoteServerInfoV, ErrorV>(v@),
                Err(err) => spec_server_info_from_node(node@) == Err::<RemoteServerInfoV, ErrorV>(
                    err@,
                ),
            },
    {
        RemoteServerInfo::read_node(node)
    }
}

/// Marshaling of an [`AttachmentResponse`]: the three numbers required,
/// everything else optional.
pub open spec fn spec_attachment_response_from_node(n: NodeV) -> Result<
    AttachmentResponseV,
    ErrorV,
> {
    match n {
        NodeV::Text(_) => Err(ErrorV::ExpectedElement { found: n }),
        NodeV::Elem(e) => {
            let comment = match spec_field_string(e, "comment"@) {
                Ok(v) => Some(v),
                Err(_) => None,
            };
            let content_type = match spec_field_string(e, "contentType"@) {
                Ok(v) => Some(v),
                Err(_) => None,
            };
            let created = match spec_field_datetime(e, "created"@) {
                Ok(v) => Some(v),
                Err(_) => None,
            };
            let creator = match spec_field_string(e, "creator"@) {
                Ok(v) => Some(v),
                Err(_) => None,
            };
            let file_name = match spec_field_string(e, "fileName"@) {
                Ok(v) => Some(v),
                Err(_) => None,
            };
            let title = match spec_field_string(e, "title"@) {
                Ok(v) => Some(v),
                Err(_) => None,
            };
            let url = match spec_field_string(e, "url"@) {
                Ok(v) => Some(v),
                Err(_) => None,
            };
            match spec_field_long(e, "fileSize"@) {
                Err(x) => Err(x),
                Ok(file_size) => match spec_field_long(e, "id"@) {
                    Err(x) => Err(x),
                    Ok(id) => match spec_field_long(e, "pageId"@) {
                        Err(x) => Err(x),
                        Ok(page_id) => Ok(
                            AttachmentResponseV {
                                comment,
                                content_type,
                                created,
                                creator,
                                file_name,
                                file_size,
                                id,
                                page_id,
                                title,
                                url,
                            },
                        ),
                    },
                },
            }
        },
    }
}

impl AttachmentResponse {
    /// Build an [`AttachmentResponse`] from a wire sub-tree, exactly as
    /// [`spec_attachment_response_from_node`] says.
    pub fn read_node(node: XMLNode) -> (r: Result<AttachmentResponse, XmlError>)
        ensures
            match r {
                Ok(v) => spec_attachment_response_from_node(node@) == Ok::<
                    AttachmentResponseV,
                    ErrorV,
                >(v@),
                Err(err) => spec_attachment_response_from_node(node@) == Err::<
                    AttachmentResponseV,
                    ErrorV,
                >(err@),
            },
    {
        let element = match node {
            XMLNode::Element(element) => element,
            XMLNode::Text(t) => {
                return Err(XmlError::ExpectedElement { found: XMLNode::Text(t) });
            },
        };
        let comment = match field_string(&element, "comment") {
            Ok(v) => Some(v),
            Err(_) => None,
        };
        let content_type = match field_string(&element, "contentType") {
            Ok(v) => Some(v),
            Err(_) => None,
        };
        let created = match field_datetime(&element, "created") {
            Ok(v) => Some(v),
            Err(_) => None,
        };
        let creator = match field_string(&element, "creator") {
            Ok(v) => Some(v),
            Err(_) => None,
        };
        let file_name = match field_string(&element, "fileName") {
            Ok(v) => Some(v),
            Err(_) => None,
        };
        let title = match field_string(&element, "title") {
            Ok(v) => Some(v),
            Err(_) => None,
        };
        let url = match field_string(&element, "url") {
            Ok(v) => Some(v),
            Err(_) => None,
        };
        let file_size = match field_long(&element, "fileSize") {
            Ok(v) => v,
            Err(err) => {
                return Err(err);
            },
        };
        let id = match field_long(&element, "id") {
            Ok(v) => v,
            Err(err) => {
                return Err(err);
            },
        };
        let page_id = match field_long(&element, "pageId") {
            Ok(v) => v,
            Err(err) => {
                return Err(err);
            },
        };
        Ok(
            AttachmentResponse {
                comment,
                content_type,
                created,
                creator,
                file_name,
                file_size,
                id,
                page_id,
                title,
                url,
            },
        )
    }
}

impl FromXMLNode for AttachmentResponse {
    fn from_node(node: XMLNode) -> (r: Result<AttachmentResponse, XmlError>)
        ensures
            match r {
                Ok(v) => spec_attachment_response_from_node(node@) == Ok::<
                    AttachmentResponseV,
                    ErrorV,
                >(v@),
                Err(err) => spec_attachment_response_from_node(node@) == Err::<
                    AttachmentResponseV,
                    ErrorV,
                >(err@),
            },
    {
        AttachmentResponse::read_node(node)
    }
}

/// The views of a sequence of summaries.
pub open spec fn view_summaries(ss: Seq<PageSummary>) -> Seq<PageSummaryV> {
    Seq::new(ss.len(), |i: int| ss[i]@)
}

/// Length and indexing of [`view_summaries`].
pub proof fn lemma_view_summaries_index(ss: Seq<PageSummary>)
    ensures
        view_summaries(ss).len() == ss.len(),
        forall|i: int| 0 <= i < ss.len() ==> view_summaries(ss)[i] == ss[i]@,
{
}

/// Marshaling of a list: the direct child elements in order, each
/// independently marshaled, text children skipped; the first failing
/// element fails the whole list.
pub open spec fn spec_summaries_from(children: Seq<NodeV>, i: int) -> Result<
    Seq<PageSummaryV>,
    ErrorV,
>
    decreases children.len() - i,
{
    if i < 0 || i >= children.len() {
        Ok(Seq::empty())
    } else {
        match children[i] {
            NodeV::Text(_) => spec_summaries_from(children, i + 1),
            NodeV::Elem(_) => match spec_page_summary_from_node(children[i]) {
                Err(x) => Err(x),
                Ok(p) => match spec_summaries_from(children, i + 1) {
                    Err(x) => Err(x),
                    Ok(ps) => Ok(seq![p] + ps),
                },
            },
        }
    }
}

/// Marshal every child element into a summary, exactly as
/// [`spec_summaries_from`] says.
pub fn summaries_from_children(children: &Vec<XMLNode>) -> (r: Result<Vec<PageSummary>, XmlError>)
    ensures
        match r {
            Ok(v) => spec_summaries_from(crate::rpser::xml::view_children(children@), 0)
                == Ok::<Seq<PageSummaryV>, ErrorV>(view_summaries(v@)),
            Err(e) => spec_summaries_from(crate::rpser::xml::view_children(children@), 0)
                == Err::<Seq<PageSummaryV>, ErrorV>(e@),
        },
{
    let ghost chv = crate::rpser::xml::view_children(children@);
    proof {
        crate::rpser::xml::lemma_view_children_index(children@);
        match spec_summaries_from(chv, 0) {
            Ok(r0) => {
                assert(Seq::<PageSummaryV>::empty() + r0 =~= r0);
            },
            Err(_) => {},
        }
    }
    let mut acc: Vec<PageSummary> = Vec::new();
    proof {
        assert(view_summaries(acc@) =~= Seq::<PageSummaryV>::empty());
    }
    let mut i: usize = 0;
    while i < children.len()
        invariant
            i <= children@.len(),
            chv == crate::rpser::xml::view_children(children@),
            chv.len() == children@.len(),
            forall|t: int|
                0 <= t < children@.len() ==> chv[t] == crate::rpser::xml::view_node(
                    children@[t],
                ),
            spec_summaries_from(chv, 0) == (match spec_summaries_from(chv, i as int) {
                Ok(restv) => Ok::<Seq<PageSummaryV>, ErrorV>(view_summaries(acc@) + restv),
                Err(x) => Err::<Seq<PageSummaryV>, ErrorV>(x),
            }),
        decreases children@.len() - i,
    {
        match &children[i] {
            XMLNode::Text(_) => {
                // text between child elements is not part of the list
                proof {
                    assert(chv[i as int] is Text);
                }
            },
            XMLNode::Element(_) => {
                let node = children[i].clone();
                proof {
                    assert(crate::rpser::xml::view_node(node) == chv[i as int]);
                }
                match PageSummary::read_node(node) {
                    Err(e) => {
                        return Err(e);
                    },
                    Ok(p) => {
                        let ghost prevacc = acc@;
                        acc.push(p);
                        proof {
                            lemma_view_summaries_index(prevacc);
                            lemma_view_summaries_index(acc@);
                            assert(view_summaries(acc@) =~= view_summaries(prevacc).push(
                                acc@.last()@,
                            ));
                            match spec_summaries_from(chv, i + 1) {
                                Ok(restv) => {
                                    assert(view_summaries(prevacc) + (seq![acc@.last()@] + restv)
                                        =~= view_summaries(acc@) + restv);
                                },
                                Err(_) => {},
                            }
                        }
                    },
                }
            },
        }
        i += 1;
    }
    proof {
        assert(spec_summaries_from(chv, i as int) == Ok::<Seq<PageSummaryV>, ErrorV>(Seq::empty()));
        assert(view_summaries(acc@) + Seq::<PageSummaryV>::empty() =~= view_summaries(acc@));
    }
    Ok(acc)
}

} // verus!
