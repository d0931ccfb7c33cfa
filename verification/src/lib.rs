//! Client-side marshaling and session layer for a SOAP-style RPC service
//! exposing hierarchical documents (pages, spaces, attachments).
//!
//! The crate models the wire document as an in-memory tree ([`rpser::xml::Element`]),
//! navigates it by paths, extracts typed leaf values, wraps calls in the
//! envelope format, resolves per-operation endpoints from a service
//! description, and drives the login/logout session state machine.
//! Network transport is left to the caller: every remote operation is split
//! into a request builder and a response reader, both fully specified, so a
//! thin unverified shell can run the actual round trips.

use vstd::prelude::*;

pub mod datetime;
pub mod num;
pub mod rpser;
pub mod strings;
pub mod wsdl;

pub mod attachment;
pub mod page;
pub mod server_info;
pub mod space;
pub mod transforms;

use crate::rpser::{Method, MethodV, Response, RpcError, RpcErrorV, spec_envelope};
use crate::rpser::xml::{Element, XMLNode, ElemV, NodeV, Error as XmlError, ErrorV as XmlErrorV,
    spec_descend, spec_path, spec_get_text, lemma_spec_path_index, attr_from};
use crate::rpser::wire::render_document;
use crate::wsdl::Wsdl;
use crate::strings::str_eq;
use crate::attachment::{AttachmentRequest, AttachmentResponse, AttachmentResponseV,
    spec_attachment_element, base64_encode, base64_standard};
use crate::page::{Page, PageV, PageSummary, PageSummaryV, UpdatePage, UpdatePageV,
    PageUpdateOptions, PageUpdateOptionsV};
use crate::space::{Space, SpaceV};
use crate::server_info::{RemoteServerInfo, RemoteServerInfoV};
use crate::num::{i64_to_string, i32_to_string, spec_int_str};
use crate::transforms::{spec_field, spec_space_from_node, spec_page_from_node,
    spec_server_info_from_node, spec_attachment_response_from_node, spec_summaries_from,
    view_summaries};

verus! {

broadcast use vstd::std_specs::vec::group_vec_axioms;

/// What a session operation can fail with.
#[derive(Debug, PartialEq)]
pub enum Error {
    /// The requested method is absent from the operation directory; raised
    /// before any network traffic.
    MethodNotFoundInWsdl(String),
    /// The login response carried no token.
    ReceivedNoLoginToken,
    /// A local input/output failure, reported by the caller's shell.
    Io(String),
    /// A transport failure, reported by the caller's shell.
    Http(String),
    /// The response could not be taken as a payload.
    Rpc(RpcError),
}

/// Mathematical model of [`Error`].
#[verifier::ext_equal]
pub enum ErrorV {
    MethodNotFoundInWsdl(Seq<char>),
    ReceivedNoLoginToken,
    Io(Seq<char>),
    Http(Seq<char>),
    Rpc(RpcErrorV),
}

pub open spec fn view_lib_error(e: Error) -> ErrorV {
    match e {
        Error::MethodNotFoundInWsdl(name) => ErrorV::MethodNotFoundInWsdl(name@),
        Error::ReceivedNoLoginToken => ErrorV::ReceivedNoLoginToken,
        Error::Io(m) => ErrorV::Io(m@),
        Error::Http(m) => ErrorV::Http(m@),
        Error::Rpc(inner) => ErrorV::Rpc(crate::rpser::view_rpc_error(inner)),
    }
}

impl View for Error {
    type V = ErrorV;

    open spec fn view(&self) -> ErrorV {
        view_lib_error(*self)
    }
}

/// An `Error` wrapping a navigation failure.
pub open spec fn rpc_xml_error(x: XmlErrorV) -> ErrorV {
    ErrorV::Rpc(RpcErrorV::Xml(x))
}

/// Wrap a navigation failure, as every response reader does.
pub fn from_xml_error(e: XmlError) -> (r: Error)
    ensures
        r@ == rpc_xml_error(e@),
{
    Error::Rpc(RpcError::Xml(e))
}

/// One ready-to-send call: where to post, the action header value, and the
/// serialized envelope.
#[derive(Debug, PartialEq)]
pub struct OutboundCall {
    pub url: String,
    pub action: String,
    pub envelope: String,
}

/// The well-known path appended to the service base URL to fetch the
/// service description document.
pub open spec fn spec_rpc_path() -> Seq<char> {
    "/rpc/soap-axis/confluenceservice-v2?wsdl"@
}

/// The URL the service description is fetched from: the base URL without
/// its trailing slash, then the well-known path.
pub open spec fn spec_wsdl_url(base: Seq<char>) -> Seq<char> {
    (if base.len() > 0 && base.last() == '/' {
        base.drop_last()
    } else {
        base
    }) + spec_rpc_path()
}

/// Where to fetch the service description for a given base URL.
pub fn wsdl_url(base: &str) -> (r: String)
    ensures
        r@ == spec_wsdl_url(base@),
{
    let n = base.unicode_len();
    let trimmed = if n > 0 && base.get_char(n - 1) == '/' {
        let t = base.substring_char(0, n - 1);
        proof {
            assert(t@ =~= base@.drop_last());
        }
        t.to_owned()
    } else {
        base.to_owned()
    };
    trimmed.concat("/rpc/soap-axis/confluenceservice-v2?wsdl")
}

/// The token parameter element every authenticated call starts with.
pub open spec fn spec_token_element(token: Seq<char>) -> ElemV {
    ElemV { name: "token"@, attrs: Seq::empty(), children: seq![NodeV::Text(token)] }
}

/// A `name` leaf holding `text`.
pub open spec fn spec_text_element(name: Seq<char>, text: Seq<char>) -> ElemV {
    ElemV { name, attrs: Seq::empty(), children: seq![NodeV::Text(text)] }
}

/// Build a `name` leaf holding `text`.
pub fn text_element(name: &str, text: &str) -> (r: Element)
    ensures
        r@ == spec_text_element(name@, text@),
{
    let r = Element::node(name).with_text(text);
    proof {
        assert(r@.children =~= seq![NodeV::Text(text@)]);
        assert(r@ =~= spec_text_element(name@, text@));
    }
    r
}

/// The token a login response carries, or why none could be read: the
/// `loginReturn` element's text.
pub open spec fn spec_login_token(body: ElemV) -> Result<Seq<char>, ErrorV> {
    match spec_descend(body, seq!["loginReturn"@]) {
        None => Err(rpc_xml_error(XmlErrorV::NotFoundAtPath { path: seq!["loginReturn"@] })),
        Some(nd) => match nd {
            NodeV::Text(_) => Err(rpc_xml_error(XmlErrorV::ExpectedElement { found: nd })),
            NodeV::Elem(le) => match spec_get_text(le) {
                Some(t) => Ok(t),
                None => Err(ErrorV::ReceivedNoLoginToken),
            },
        },
    }
}

/// The flag a logout response carries: `true` exactly when the
/// `logoutReturn` element's text is the literal `true`.
pub open spec fn spec_logout_flag(body: ElemV) -> Result<bool, ErrorV> {
    match spec_descend(body, seq!["logoutReturn"@]) {
        None => Err(rpc_xml_error(XmlErrorV::NotFoundAtPath { path: seq!["logoutReturn"@] })),
        Some(nd) => match nd {
            NodeV::Text(_) => Err(rpc_xml_error(XmlErrorV::ExpectedElement { found: nd })),
            NodeV::Elem(le) => match spec_get_text(le) {
                Some(t) => Ok(t == "true"@),
                None => Ok(false),
            },
        },
    }
}

/// What `logout` decides before any traffic: nothing to do, or one call.
#[derive(Debug, PartialEq)]
pub enum LogoutStep {
    /// The token is already empty: no remote call is made.
    AlreadyLoggedOut,
    /// The logout call to perform.
    Request(OutboundCall),
}

/// A session: the operation directory fetched at login, and the
/// authentication token (empty exactly when logged out).
#[derive(Debug, PartialEq)]
pub struct Session {
    pub wsdl: Wsdl,
    pub token: String,
}

impl Session {
    /// A fresh, logged-out session around a directory.
    pub fn start(wsdl: Wsdl) -> (s: Session)
        ensures
            s.wsdl@ == wsdl@,
            s.token@ == Seq::<char>::empty(),
    {
        let s = Session { wsdl, token: String::new() };
        proof {
            assert(s.token@ =~= Seq::<char>::empty());
        }
        s
    }

    /// The token of this session.
    pub fn token(&self) -> (t: String)
        ensures
            t@ == self.token@,
    {
        self.token.clone()
    }

    /// A method with the session token already set as the first parameter.
    pub fn method(&self, name: &str) -> (m: Method)
        ensures
            m@ == (MethodV {
                name: name@,
                args: seq![NodeV::Elem(spec_token_element(self.token@))],
            }),
    {
        let m = Method::new(name).with(text_element("token", self.token.as_str()));
        proof {
            assert(m@.args =~= seq![NodeV::Elem(spec_token_element(self.token@))]);
            assert(m@ =~= (MethodV {
                name: name@,
                args: seq![NodeV::Elem(spec_token_element(self.token@))],
            }));
        }
        m
    }

    /// Resolve the method's endpoint and serialize the envelope. A name
    /// absent from the directory fails here, before any network traffic.
    pub fn prepare(&self, method: &Method) -> (r: Result<OutboundCall, Error>)
        ensures
            match r {
                Ok(c) => {
                    &&& attr_from(self.wsdl@, method@.name, 0) matches Some(u)
                    &&& c.url@ == u
                    &&& c.action@ == method@.name
                    &&& c.envelope@ == render_document(spec_envelope(method@, u))
                },
                Err(e) => {
                    &&& attr_from(self.wsdl@, method@.name, 0) is None
                    &&& e@ == ErrorV::MethodNotFoundInWsdl(method@.name)
                },
            },
    {
        match self.wsdl.endpoint(method.name.as_str()) {
            None => Err(Error::MethodNotFoundInWsdl(method.name.clone())),
            Some(url) => {
                let envelope = method.as_xml(url.as_str());
                Ok(OutboundCall { url, action: method.name.clone(), envelope })
            },
        }
    }

    /// The bootstrap call of a session: `login` with the credentials, no
    /// token yet.
    pub fn login_method(user: &str, pass: &str) -> (m: Method)
        ensures
            m@ == (MethodV {
                name: "login"@,
                args: seq![
                    NodeV::Elem(spec_text_element("username"@, user@)),
                    NodeV::Elem(spec_text_element("password"@, pass@)),
                ],
            }),
    {
        let m = Method::new("login").with(text_element("username", user)).with(
            text_element("password", pass),
        );
        proof {
            assert(m@.args =~= seq![
                NodeV::Elem(spec_text_element("username"@, user@)),
                NodeV::Elem(spec_text_element("password"@, pass@)),
            ]);
            assert(m@ =~= (MethodV {
                name: "login"@,
                args: seq![
                    NodeV::Elem(spec_text_element("username"@, user@)),
                    NodeV::Elem(spec_text_element("password"@, pass@)),
                ],
            }));
        }
        m
    }

    /// Take a login response: the token moves into the session exactly when
    /// the response carries one.
    pub fn accept_login(&mut self, response: &Response) -> (r: Result<(), Error>)
        ensures
            final(self).wsdl@ == old(self).wsdl@,
            match r {
                Ok(_) => {
                    &&& spec_login_token(response.body@) matches Ok(t)
                    &&& final(self).token@ == t
                },
                Err(e) => {
                    &&& spec_login_token(response.body@) == Err::<Seq<char>, ErrorV>(e@)
                    &&& final(self).token@ == old(self).token@
                },
            },
    {
        let p: [&str; 1] = ["loginReturn"];
        proof {
            lemma_spec_path_index(p@);
            assert(spec_path(p@) =~= seq!["loginReturn"@]);
        }
        let node = match response.body.get_at_path(p.as_slice()) {
            Ok(n) => n,
            Err(e) => {
                return Err(from_xml_error(e));
            },
        };
        let el = match node.expect_element() {
            Ok(el) => el,
            Err(e) => {
                return Err(from_xml_error(e));
            },
        };
        match el.get_text() {
            Some(t) => {
                self.token = t;
                Ok(())
            },
            None => Err(Error::ReceivedNoLoginToken),
        }
    }

    /// Decide a logout: an already-empty token means nothing is sent and
    /// the benign answer is returned; otherwise the one logout call is
    /// produced.
    pub fn logout_request(&self) -> (r: Result<LogoutStep, Error>)
        ensures
            match r {
                Ok(LogoutStep::AlreadyLoggedOut) => self.token@.len() == 0,
                Ok(LogoutStep::Request(c)) => {
                    &&& self.token@.len() > 0
                    &&& attr_from(self.wsdl@, "logout"@, 0) matches Some(u)
                    &&& c.url@ == u
                    &&& c.action@ == "logout"@
                    &&& c.envelope@ == render_document(
                        spec_envelope(
                            MethodV {
                                name: "logout"@,
                                args: seq![NodeV::Elem(spec_token_element(self.token@))],
                            },
                            u,
                        ),
                    )
                },
                Err(e) => {
                    &&& self.token@.len() > 0
                    &&& attr_from(self.wsdl@, "logout"@, 0) is None
                    &&& e@ == ErrorV::MethodNotFoundInWsdl("logout"@)
                },
            },
    {
        if self.token.as_str().is_empty() {
            Ok(LogoutStep::AlreadyLoggedOut)
        } else {
            match self.prepare(&self.method("logout")) {
                Ok(c) => Ok(LogoutStep::Request(c)),
                Err(e) => Err(e),
            }
        }
    }

    /// Take a logout response: the token is discarded either way, and the
    /// remote side's answer handed back.
    pub fn accept_logout(&mut self, response: &Response) -> (r: Result<bool, Error>)
        ensures
            final(self).wsdl@ == old(self).wsdl@,
            final(self).token@ == Seq::<char>::empty(),
            match r {
                Ok(b) => spec_logout_flag(response.body@) == Ok::<bool, ErrorV>(b),
                Err(e) => spec_logout_flag(response.body@) == Err::<bool, ErrorV>(e@),
            },
    {
        self.token = String::new();
        proof {
            assert(self.token@ =~= Seq::<char>::empty());
        }
        let p: [&str; 1] = ["logoutReturn"];
        proof {
            lemma_spec_path_index(p@);
            assert(spec_path(p@) =~= seq!["logoutReturn"@]);
        }
        let node = match response.body.get_at_path(p.as_slice()) {
            Ok(n) => n,
            Err(e) => {
                return Err(from_xml_error(e));
            },
        };
        let el = match node.expect_element() {
            Ok(el) => el,
            Err(e) => {
                return Err(from_xml_error(e));
            },
        };
        match el.get_text() {
            Some(t) => Ok(str_eq(t.as_str(), "true")),
            None => Ok(false),
        }
    }
}

// ---------------------------------------------------------------------------
// The calls of the caller-facing operation set
// ---------------------------------------------------------------------------

/// The arguments of an authenticated call: the token element first, then
/// the operation's own parameters in order.
pub open spec fn spec_call_args(token: Seq<char>, params: Seq<NodeV>) -> Seq<NodeV> {
    seq![NodeV::Elem(spec_token_element(token))] + params
}

/// The `page` parameter sub-tree of a store or update call: the three
/// always-present leaves, then `id`, `version` and `parentId` when given.
pub open spec fn spec_page_items(p: UpdatePageV) -> Seq<NodeV> {
    let base = seq![
        NodeV::Elem(spec_text_element("space"@, p.space)),
        NodeV::Elem(spec_text_element("title"@, p.title)),
        NodeV::Elem(spec_text_element("content"@, p.content)),
    ];
    let with_id = match p.id {
        Some(id) => base.push(NodeV::Elem(spec_text_element("id"@, spec_int_str(id as int)))),
        None => base,
    };
    let with_version = match p.version {
        Some(v) => with_id.push(
            NodeV::Elem(spec_text_element("version"@, spec_int_str(v as int))),
        ),
        None => with_id,
    };
    match p.parent_id {
        Some(pid) => with_version.push(
            NodeV::Elem(spec_text_element("parentId"@, spec_int_str(pid as int))),
        ),
        None => with_version,
    }
}

/// The `pageUpdateOptions` sub-tree: the comment when given, then the
/// minor-edit flag as `true` or `false`.
pub open spec fn spec_update_items(o: PageUpdateOptionsV) -> Seq<NodeV> {
    let base = match o.version_comment {
        Some(c) => seq![NodeV::Elem(spec_text_element("versionComment"@, c))],
        None => Seq::<NodeV>::empty(),
    };
    base.push(
        NodeV::Elem(
            spec_text_element(
                "minorEdit"@,
                if o.minor_edit {
                    "true"@
                } else {
                    "false"@
                },
            ),
        ),
    )
}

/// Build the `page` parameter sub-tree.
fn page_element(page: UpdatePage) -> (r: Element)
    ensures
        r@ == (ElemV { name: "page"@, attrs: Seq::empty(), children: spec_page_items(page@) }),
{
    let ghost pv = page@;
    let mut e = Element::node("page")
        .with_child(text_element("space", page.space.as_str()))
        .with_child(text_element("title", page.title.as_str()))
        .with_child(text_element("content", page.content.as_str()));
    match page.id {
        Some(id) => {
            let t = i64_to_string(id);
            e = e.with_child(text_element("id", t.as_str()));
        },
        None => {},
    }
    match page.version {
        Some(v) => {
            let t = i32_to_string(v);
            e = e.with_child(text_element("version", t.as_str()));
        },
        None => {},
    }
    match page.parent_id {
        Some(pid) => {
            let t = i64_to_string(pid);
            e = e.with_child(text_element("parentId", t.as_str()));
        },
        None => {},
    }
    proof {
        assert(e@.children =~= spec_page_items(pv));
        assert(e@ =~= (ElemV { name: "page"@, attrs: Seq::empty(), children: spec_page_items(pv) }));
    }
    e
}

/// Build the `pageUpdateOptions` sub-tree.
fn update_options_element(options: PageUpdateOptions) -> (r: Element)
    ensures
        r@ == (ElemV {
            name: "pageUpdateOptions"@,
            attrs: Seq::empty(),
            children: spec_update_items(options@),
        }),
{
    let ghost ov = options@;
    let mut e = Element::node("pageUpdateOptions");
    match options.version_comment {
        Some(c) => {
            e = e.with_child(text_element("versionComment", c.as_str()));
        },
        None => {},
    }
    if options.minor_edit {
        e = e.with_child(text_element("minorEdit", "true"));
    } else {
        e = e.with_child(text_element("minorEdit", "false"));
    }
    proof {
        assert(e@.children =~= spec_update_items(ov));
        assert(e@ =~= (ElemV {
            name: "pageUpdateOptions"@,
            attrs: Seq::empty(),
            children: spec_update_items(ov),
        }));
    }
    e
}

impl Session {
    /// The `getSpace` call for one space key.
    pub fn get_space_request(&self, space_key: &str) -> (r: Result<OutboundCall, Error>)
        ensures
            prepared(
                self.wsdl@,
                MethodV {
                    name: "getSpace"@,
                    args: spec_call_args(
                        self.token@,
                        seq![NodeV::Elem(spec_text_element("spaceKey"@, space_key@))],
                    ),
                },
                r,
            ),
    {
        let m = self.method("getSpace").with(text_element("spaceKey", space_key));
        proof {
            assert(m@.args =~= spec_call_args(
                self.token@,
                seq![NodeV::Elem(spec_text_element("spaceKey"@, space_key@))],
            ));
        }
        self.prepare(&m)
    }

    /// The `getPage` call for a space key and title.
    pub fn get_page_by_title_request(&self, space_key: &str, page_title: &str) -> (r: Result<
        OutboundCall,
        Error,
    >)
        ensures
            prepared(
                self.wsdl@,
                MethodV {
                    name: "getPage"@,
                    args: spec_call_args(
                        self.token@,
                        seq![
                            NodeV::Elem(spec_text_element("spaceKey"@, space_key@)),
                            NodeV::Elem(spec_text_element("pageTitle"@, page_title@)),
                        ],
                    ),
                },
                r,
            ),
    {
        let m = self.method("getPage").with(text_element("spaceKey", space_key)).with(
            text_element("pageTitle", page_title),
        );
        proof {
            assert(m@.args =~= spec_call_args(
                self.token@,
                seq![
                    NodeV::Elem(spec_text_element("spaceKey"@, space_key@)),
                    NodeV::Elem(spec_text_element("pageTitle"@, page_title@)),
                ],
            ));
        }
        self.prepare(&m)
    }

    /// The `getPage` call for a page id.
    pub fn get_page_by_id_request(&self, page_id: i64) -> (r: Result<OutboundCall, Error>)
        ensures
            prepared(
                self.wsdl@,
                MethodV {
                    name: "getPage"@,
                    args: spec_call_args(
                        self.token@,
                        seq![
                            NodeV::Elem(
                                spec_text_element("pageId"@, spec_int_str(page_id as int)),
                            ),
                        ],
                    ),
                },
                r,
            ),
    {
        let t = i64_to_string(page_id);
        let m = self.method("getPage").with(text_element("pageId", t.as_str()));
        proof {
            assert(m@.args =~= spec_call_args(
                self.token@,
                seq![NodeV::Elem(spec_text_element("pageId"@, spec_int_str(page_id as int)))],
            ));
        }
        self.prepare(&m)
    }

    /// The `storePage` call: add or update one page.
    pub fn store_page_request(&self, page: UpdatePage) -> (r: Result<OutboundCall, Error>)
        ensures
            prepared(
                self.wsdl@,
                MethodV {
                    name: "storePage"@,
                    args: spec_call_args(
                        self.token@,
                        seq![
                            NodeV::Elem(
                                ElemV {
                                    name: "page"@,
                                    attrs: Seq::empty(),
                                    children: spec_page_items(page@),
                                },
                            ),
                        ],
                    ),
                },
                r,
            ),
    {
        let ghost pv = page@;
        let m = self.method("storePage").with(page_element(page));
        proof {
            assert(m@.args =~= spec_call_args(
                self.token@,
                seq![
                    NodeV::Elem(
                        ElemV { name: "page"@, attrs: Seq::empty(), children: spec_page_items(pv) },
                    ),
                ],
            ));
        }
        self.prepare(&m)
    }

    /// The `updatePage` call: like a store, with the update options.
    pub fn update_page_request(&self, page: UpdatePage, options: PageUpdateOptions) -> (r: Result<
        OutboundCall,
        Error,
    >)
        ensures
            prepared(
                self.wsdl@,
                MethodV {
                    name: "updatePage"@,
                    args: spec_call_args(
                        self.token@,
                        seq![
                            NodeV::Elem(
                                ElemV {
                                    name: "page"@,
                                    attrs: Seq::empty(),
                                    children: spec_page_items(page@),
                                },
                            ),
                            NodeV::Elem(
                                ElemV {
                                    name: "pageUpdateOptions"@,
                                    attrs: Seq::empty(),
                                    children: spec_update_items(options@),
                                },
                            ),
                        ],
                    ),
                },
                r,
            ),
    {
        let ghost pv = page@;
        let ghost ov = options@;
        let m = self.method("updatePage").with(page_element(page)).with(
            update_options_element(options),
        );
        proof {
            assert(m@.args =~= spec_call_args(
                self.token@,
                seq![
                    NodeV::Elem(
                        ElemV { name: "page"@, attrs: Seq::empty(), children: spec_page_items(pv) },
                    ),
                    NodeV::Elem(
                        ElemV {
                            name: "pageUpdateOptions"@,
                            attrs: Seq::empty(),
                            children: spec_update_items(ov),
                        },
                    ),
                ],
            ));
        }
        self.prepare(&m)
    }

    /// The `removePage` call for a page id.
    pub fn remove_page_request(&self, page_id: i64) -> (r: Result<OutboundCall, Error>)
        ensures
            prepared(
                self.wsdl@,
                MethodV {
                    name: "removePage"@,
                    args: spec_call_args(
                        self.token@,
                        seq![
                            NodeV::Elem(
                                spec_text_element("pageId"@, spec_int_str(page_id as int)),
                            ),
                        ],
                    ),
                },
                r,
            ),
    {
        let t = i64_to_string(page_id);
        let m = self.method("removePage").with(text_element("pageId", t.as_str()));
        proof {
            assert(m@.args =~= spec_call_args(
                self.token@,
                seq![NodeV::Elem(spec_text_element("pageId"@, spec_int_str(page_id as int)))],
            ));
        }
        self.prepare(&m)
    }

    /// The `getChildren` call for a page id.
    pub fn get_children_request(&self, page_id: i64) -> (r: Result<OutboundCall, Error>)
        ensures
            prepared(
                self.wsdl@,
                MethodV {
                    name: "getChildren"@,
                    args: spec_call_args(
                        self.token@,
                        seq![
                            NodeV::Elem(
                                spec_text_element("pageId"@, spec_int_str(page_id as int)),
                            ),
                        ],
                    ),
                },
                r,
            ),
    {
        let t = i64_to_string(page_id);
        let m = self.method("getChildren").with(text_element("pageId", t.as_str()));
        proof {
            assert(m@.args =~= spec_call_args(
                self.token@,
                seq![NodeV::Elem(spec_text_element("pageId"@, spec_int_str(page_id as int)))],
            ));
        }
        self.prepare(&m)
    }

    /// The `getServerInfo` call.
    pub fn get_server_info_request(&self) -> (r: Result<OutboundCall, Error>)
        ensures
            prepared(
                self.wsdl@,
                MethodV {
                    name: "getServerInfo"@,
                    args: spec_call_args(self.token@, Seq::empty()),
                },
                r,
            ),
    {
        let m = self.method("getServerInfo");
        proof {
            assert(m@.args =~= spec_call_args(self.token@, Seq::empty()));
        }
        self.prepare(&m)
    }

    /// The `addAttachment` call: the content id, the attachment record, and
    /// the data in its base64 wire form.
    pub fn add_attachment_request(
        &self,
        content_id: i64,
        attachment: AttachmentRequest,
        data: &Vec<u8>,
    ) -> (r: Result<OutboundCall, Error>)
        ensures
            prepared(
                self.wsdl@,
                MethodV {
                    name: "addAttachment"@,
                    args: spec_call_args(
                        self.token@,
                        seq![
                            NodeV::Elem(
                                spec_text_element("contentId"@, spec_int_str(content_id as int)),
                            ),
                            NodeV::Elem(spec_attachment_element(attachment@)),
                            NodeV::Elem(
                                spec_text_element("attachmentData"@, base64_standard(data@)),
                            ),
                        ],
                    ),
                },
                r,
            ),
    {
        let ghost av = attachment@;
        let t = i64_to_string(content_id);
        let encoded = base64_encode(data);
        let m = self.method("addAttachment").with(text_element("contentId", t.as_str())).with(
            attachment.to_element(),
        ).with(text_element("attachmentData", encoded.as_str()));
        proof {
            assert(m@.args =~= spec_call_args(
                self.token@,
                seq![
                    NodeV::Elem(spec_text_element("contentId"@, spec_int_str(content_id as int))),
                    NodeV::Elem(spec_attachment_element(av)),
                    NodeV::Elem(spec_text_element("attachmentData"@, base64_standard(data@))),
                ],
            ));
        }
        self.prepare(&m)
    }
}

/// What `prepare` promises of a result for a given directory and method:
/// either the one call bound to the directory's endpoint, or the fail-fast
/// not-found error.
pub open spec fn prepared(
    dir: Seq<(Seq<char>, Seq<char>)>,
    m: MethodV,
    r: Result<OutboundCall, Error>,
) -> bool {
    match r {
        Ok(c) => {
            &&& attr_from(dir, m.name, 0) matches Some(u)
            &&& c.url@ == u
            &&& c.action@ == m.name
            &&& c.envelope@ == render_document(spec_envelope(m, u))
        },
        Err(e) => {
            &&& attr_from(dir, m.name, 0) is None
            &&& e@ == ErrorV::MethodNotFoundInWsdl(m.name)
        },
    }
}

// ---------------------------------------------------------------------------
// The responses of the caller-facing operation set
// ---------------------------------------------------------------------------

/// The node under the response body's return tag, with navigation failures
/// wrapped as this crate's error.
fn return_node(response: &Response, tag: &str) -> (r: Result<XMLNode, Error>)
    ensures
        match r {
            Ok(nd) => spec_field(response.body@, tag@) == Ok::<NodeV, XmlErrorV>(nd@),
            Err(e) => {
                &&& spec_field(response.body@, tag@) matches Err(x)
                &&& e@ == rpc_xml_error(x)
            },
        },
{
    match crate::transforms::field_node(&response.body, tag) {
        Ok(nd) => Ok(nd),
        Err(err) => Err(from_xml_error(err)),
    }
}

/// The space a `getSpace` response carries.
pub open spec fn spec_space_response(body: ElemV) -> Result<SpaceV, ErrorV> {
    match spec_field(body, "getSpaceReturn"@) {
        Err(x) => Err(rpc_xml_error(x)),
        Ok(nd) => match spec_space_from_node(nd) {
            Ok(v) => Ok(v),
            Err(x) => Err(rpc_xml_error(x)),
        },
    }
}

/// Read a `getSpace` response, exactly as [`spec_space_response`] says.
pub fn get_space_response(response: &Response) -> (r: Result<Space, Error>)
    ensures
        match r {
            Ok(v) => spec_space_response(response.body@) == Ok::<SpaceV, ErrorV>(v@),
            Err(e) => spec_space_response(response.body@) == Err::<SpaceV, ErrorV>(e@),
        },
{
    let nd = match return_node(response, "getSpaceReturn") {
        Ok(nd) => nd,
        Err(e) => {
            return Err(e);
        },
    };
    match Space::read_node(nd) {
        Ok(v) => Ok(v),
        Err(err) => Err(from_xml_error(err)),
    }
}

/// The page a response carries under the given return tag.
pub open spec fn spec_page_response(body: ElemV, tag: Seq<char>) -> Result<PageV, ErrorV> {
    match spec_field(body, tag) {
        Err(x) => Err(rpc_xml_error(x)),
        Ok(nd) => match spec_page_from_node(nd) {
            Ok(v) => Ok(v),
            Err(x) => Err(rpc_xml_error(x)),
        },
    }
}

/// Read a page out of a response under `tag`, exactly as
/// [`spec_page_response`] says.
fn read_page_return(response: &Response, tag: &str) -> (r: Result<Page, Error>)
    ensures
        match r {
            Ok(v) => spec_page_response(response.body@, tag@) == Ok::<PageV, ErrorV>(v@),
            Err(e) => spec_page_response(response.body@, tag@) == Err::<PageV, ErrorV>(e@),
        },
{
    let nd = match return_node(response, tag) {
        Ok(nd) => nd,
        Err(e) => {
            return Err(e);
        },
    };
    match Page::read_node(nd) {
        Ok(v) => Ok(v),
        Err(err) => Err(from_xml_error(err)),
    }
}

/// Read a `getPage` response.
pub fn get_page_response(response: &Response) -> (r: Result<Page, Error>)
    ensures
        match r {
            Ok(v) => spec_page_response(response.body@, "getPageReturn"@) == Ok::<PageV, ErrorV>(
                v@,
            ),
            Err(e) => spec_page_response(response.body@, "getPageReturn"@) == Err::<
                PageV,
                ErrorV,
            >(e@),
        },
{
    read_page_return(response, "getPageReturn")
}

/// Read a `storePage` response.
pub fn store_page_response(response: &Response) -> (r: Result<Page, Error>)
    ensures
        match r {
            Ok(v) => spec_page_response(response.body@, "storePageReturn"@) == Ok::<
                PageV,
                ErrorV,
            >(v@),
            Err(e) => spec_page_response(response.body@, "storePageReturn"@) == Err::<
                PageV,
                ErrorV,
            >(e@),
        },
{
    read_page_return(response, "storePageReturn")
}

/// Read an `updatePage` response.
pub fn update_page_response(response: &Response) -> (r: Result<Page, Error>)
    ensures
        match r {
            Ok(v) => spec_page_response(response.body@, "updatePageReturn"@) == Ok::<
                PageV,
                ErrorV,
            >(v@),
            Err(e) => spec_page_response(response.body@, "updatePageReturn"@) == Err::<
                PageV,
                ErrorV,
            >(e@),
        },
{
    read_page_return(response, "updatePageReturn")
}

/// The flag a `removePage` response carries: `true` exactly when the
/// return element's text is the literal `true`.
pub open spec fn spec_remove_page_response(body: ElemV) -> Result<bool, ErrorV> {
    match spec_field(body, "removePageReturn"@) {
        Err(x) => Err(rpc_xml_error(x)),
        Ok(nd) => match nd {
            NodeV::Text(_) => Err(rpc_xml_error(XmlErrorV::ExpectedElement { found: nd })),
            NodeV::Elem(le) => match spec_get_text(le) {
                Some(t) => Ok(t == "true"@),
                None => Ok(false),
            },
        },
    }
}

/// Read a `removePage` response, exactly as [`spec_remove_page_response`]
/// says.
pub fn remove_page_response(response: &Response) -> (r: Result<bool, Error>)
    ensures
        match r {
            Ok(b) => spec_remove_page_response(response.body@) == Ok::<bool, ErrorV>(b),
            Err(e) => spec_remove_page_response(response.body@) == Err::<bool, ErrorV>(e@),
        },
{
    let nd = match return_node(response, "removePageReturn") {
        Ok(nd) => nd,
        Err(e) => {
            return Err(e);
        },
    };
    let el = match nd.expect_element() {
        Ok(el) => el,
        Err(err) => {
            return Err(from_xml_error(err));
        },
    };
    match el.get_text() {
        Some(t) => Ok(str_eq(t.as_str(), "true")),
        None => Ok(false),
    }
}

/// The summaries a `getChildren` response carries: the return element's
/// direct child elements marshaled in order (text between them skipped),
/// the first failure failing the whole list.
pub open spec fn spec_children_response(body: ElemV) -> Result<Seq<PageSummaryV>, ErrorV> {
    match spec_field(body, "getChildrenReturn"@) {
        Err(x) => Err(rpc_xml_error(x)),
        Ok(nd) => match nd {
            NodeV::Text(_) => Err(rpc_xml_error(XmlErrorV::ExpectedElement { found: nd })),
            NodeV::Elem(le) => match spec_summaries_from(le.children, 0) {
                Ok(v) => Ok(v),
                Err(x) => Err(rpc_xml_error(x)),
            },
        },
    }
}

/// Read a `getChildren` response, exactly as [`spec_children_response`]
/// says.
pub fn get_children_response(response: &Response) -> (r: Result<Vec<PageSummary>, Error>)
    ensures
        match r {
            Ok(v) => spec_children_response(response.body@) == Ok::<Seq<PageSummaryV>, ErrorV>(
                view_summaries(v@),
            ),
            Err(e) => spec_children_response(response.body@) == Err::<Seq<PageSummaryV>, ErrorV>(
                e@,
            ),
        },
{
    let nd = match return_node(response, "getChildrenReturn") {
        Ok(nd) => nd,
        Err(e) => {
            return Err(e);
        },
    };
    let el = match nd.into_element() {
        Ok(el) => el,
        Err(err) => {
            return Err(from_xml_error(err));
        },
    };
    match crate::transforms::summaries_from_children(&el.children) {
        Ok(v) => Ok(v),
        Err(err) => Err(from_xml_error(err)),
    }
}

/// The server information a `getServerInfo` response carries.
pub open spec fn spec_server_info_response(body: ElemV) -> Result<RemoteServerInfoV, ErrorV> {
    match spec_field(body, "getServerInfoReturn"@) {
        Err(x) => Err(rpc_xml_error(x)),
        Ok(nd) => match spec_server_info_from_node(nd) {
            Ok(v) => Ok(v),
            Err(x) => Err(rpc_xml_error(x)),
        },
    }
}

/// Read a `getServerInfo` response, exactly as
/// [`spec_server_info_response`] says.
pub fn get_server_info_response(response: &Response) -> (r: Result<RemoteServerInfo, Error>)
    ensures
        match r {
            Ok(v) => spec_server_info_response(response.body@) == Ok::<RemoteServerInfoV, ErrorV>(
                v@,
            ),
            Err(e) => spec_server_info_response(response.body@) == Err::<
                RemoteServerInfoV,
                ErrorV,
            >(e@),
        },
{
    let nd = match return_node(response, "getServerInfoReturn") {
        Ok(nd) => nd,
        Err(e) => {
            return Err(e);
        },
    };
    match RemoteServerInfo::read_node(nd) {
        Ok(v) => Ok(v),
        Err(err) => Err(from_xml_error(err)),
    }
}

/// The attachment record an `addAttachment` response carries.
pub open spec fn spec_attachment_response(body: ElemV) -> Result<AttachmentResponseV, ErrorV> {
    match spec_field(body, "addAttachmentReturn"@) {
        Err(x) => Err(rpc_xml_error(x)),
        Ok(nd) => match spec_attachment_response_from_node(nd) {
            Ok(v) => Ok(v),
            Err(x) => Err(rpc_xml_error(x)),
        },
    }
}

/// Read an `addAttachment` response, exactly as
/// [`spec_attachment_response`] says.
pub fn add_attachment_response(response: &Response) -> (r: Result<AttachmentResponse, Error>)
    ensures
        match r {
            Ok(v) => spec_attachment_response(response.body@) == Ok::<
                AttachmentResponseV,
                ErrorV,
            >(v@),
            Err(e) => spec_attachment_response(response.body@) == Err::<
                AttachmentResponseV,
                ErrorV,
            >(e@),
        },
{
    let nd = match return_node(response, "addAttachmentReturn") {
        Ok(nd) => nd,
        Err(e) => {
            return Err(e);
        },
    };
    match AttachmentResponse::read_node(nd) {
        Ok(v) => Ok(v),
        Err(err) => Err(from_xml_error(err)),
    }
}

/// What taking a raw response text yields for the session layer: the
/// codec's result, its errors wrapped as this crate's error.
pub open spec fn spec_accept(s: Seq<char>) -> Result<ElemV, ErrorV> {
    match crate::rpser::spec_from_xml(s) {
        Ok(b) => Ok(b),
        Err(x) => Err(ErrorV::Rpc(x)),
    }
}

/// Take a raw response text, exactly as [`spec_accept`] says.
pub fn accept_response(text: &str) -> (r: Result<Response, Error>)
    ensures
        match r {
            Ok(resp) => spec_accept(text@) == Ok::<ElemV, ErrorV>(resp.body@),
            Err(e) => spec_accept(text@) == Err::<ElemV, ErrorV>(e@),
        },
{
    match Response::from_xml(text) {
        Ok(resp) => Ok(resp),
        Err(e) => Err(Error::Rpc(e)),
    }
}

/// Teardown is idempotent: once the token is empty — as it is after any
/// [`Session::accept_logout`] — every result that
/// [`Session::logout_request`]'s contract admits is the benign
/// already-logged-out answer, so no second call is ever produced.
pub proof fn lemma_logout_idempotent(s: Session, r: Result<LogoutStep, Error>)
    requires
        s.token@.len() == 0,
        match r {
            Ok(LogoutStep::AlreadyLoggedOut) => s.token@.len() == 0,
            Ok(LogoutStep::Request(_)) => s.token@.len() > 0,
            Err(_) => s.token@.len() > 0,
        },
    ensures
        r matches Ok(LogoutStep::AlreadyLoggedOut),
{
}

/// The trace line of a call: the method name alone — and for `login`, a
/// fixed redacted form, so credentials never reach a trace.
pub open spec fn spec_call_trace(action: Seq<char>) -> Seq<char> {
    if action == "login"@ {
        "[call] login ******"@
    } else {
        "[call] "@ + action
    }
}

/// What a shell may trace for a call, exactly as [`spec_call_trace`] says:
/// the login call is redacted unconditionally.
pub fn call_trace(action: &str) -> (r: String)
    ensures
        r@ == spec_call_trace(action@),
{
    if str_eq(action, "login") {
        ("[call] login ******").to_owned()
    } else {
        ("[call] ").to_owned().concat(action)
    }
}

} // verus!
