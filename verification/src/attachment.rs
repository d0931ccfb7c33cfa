//! Attachment records: the request sent along with binary content, and the
//! response describing a stored attachment.

use vstd::prelude::*;
use crate::datetime::DateTimeValue;
use crate::rpser::xml::{Element, ElemV, NodeV};

verus! {

/// What an attachment is stored as: name, declared media type, and the
/// optional title and comment.
#[derive(Debug, PartialEq)]
pub struct AttachmentRequest {
    pub file_name: String,
    pub content_type: String,
    pub title: Option<String>,
    pub comment: Option<String>,
}

/// Mathematical model of [`AttachmentRequest`].
#[verifier::ext_equal]
pub struct AttachmentRequestV {
    pub file_name: Seq<char>,
    pub content_type: Seq<char>,
    pub title: Option<Seq<char>>,
    pub comment: Option<Seq<char>>,
}

impl View for AttachmentRequest {
    type V = AttachmentRequestV;

    open spec fn view(&self) -> AttachmentRequestV {
        AttachmentRequestV {
            file_name: self.file_name@,
            content_type: self.content_type@,
            title: match self.title {
                Some(ref s) => Some(s@),
                None => None,
            },
            comment: match self.comment {
                Some(ref s) => Some(s@),
                None => None,
            },
        }
    }
}

/// The parameter sub-tree an attachment request serializes to: `fileName`
/// and `contentType` leaves always, `title` and `comment` only when given.
pub open spec fn spec_attachment_element(a: AttachmentRequestV) -> ElemV {
    let base = seq![
        NodeV::Elem(
            ElemV {
                name: "fileName"@,
                attrs: Seq::empty(),
                children: seq![NodeV::Text(a.file_name)],
            },
        ),
        NodeV::Elem(
            ElemV {
                name: "contentType"@,
                attrs: Seq::empty(),
                children: seq![NodeV::Text(a.content_type)],
            },
        ),
    ];
    let with_title = match a.title {
        Some(t) => base.push(
            NodeV::Elem(ElemV { name: "title"@, attrs: Seq::empty(), children: seq![NodeV::Text(t)] }),
        ),
        None => base,
    };
    let with_comment = match a.comment {
        Some(c) => with_title.push(
            NodeV::Elem(
                ElemV { name: "comment"@, attrs: Seq::empty(), children: seq![NodeV::Text(c)] },
            ),
        ),
        None => with_title,
    };
    ElemV { name: "attachment"@, attrs: Seq::empty(), children: with_comment }
}

impl AttachmentRequest {
    /// A request from its parts.
    pub fn new(
        file_name: &str,
        content_type: &str,
        title: Option<String>,
        comment: Option<String>,
    ) -> (r: AttachmentRequest)
        ensures
            r@.file_name == file_name@,
            r@.content_type == content_type@,
            r@.title == (match title {
                Some(t) => Some(t@),
                None => None::<Seq<char>>,
            }),
            r@.comment == (match comment {
                Some(c) => Some(c@),
                None => None::<Seq<char>>,
            }),
    {
        AttachmentRequest {
            file_name: file_name.to_owned(),
            content_type: content_type.to_owned(),
            title,
            comment,
        }
    }

    /// The parameter sub-tree for this request, as
    /// [`spec_attachment_element`] says.
    pub fn to_element(self) -> (r: Element)
        ensures
            r@ == spec_attachment_element(self@),
    {
        let ghost sv = self@;
        let mut e = Element::node("attachment")
            .with_child(Element::node("fileName").with_text(self.file_name.as_str()))
            .with_child(Element::node("contentType").with_text(self.content_type.as_str()));
        match self.title {
            Some(t) => {
                e = e.with_child(Element::node("title").with_text(t.as_str()));
            },
            None => {},
        }
        match self.comment {
            Some(c) => {
                e = e.with_child(Element::node("comment").with_text(c.as_str()));
            },
            None => {},
        }
        proof {
            assert(e@.children =~~= spec_attachment_element(sv).children);
            assert(e@.children =~= spec_attachment_element(sv).children);
            assert(e@ =~= spec_attachment_element(sv));
        }
        e
    }
}

/// The request an attachment call uses: the one given, or — when none was
/// given — one derived from the file's name and guessed media type, with
/// no title and no comment.
pub open spec fn spec_request_or_derived(
    given: Option<AttachmentRequestV>,
    file_name: Seq<char>,
    content_type: Seq<char>,
) -> AttachmentRequestV {
    match given {
        Some(a) => a,
        None => AttachmentRequestV { file_name, content_type, title: None, comment: None },
    }
}

impl AttachmentRequest {
    /// Choose the request for a file, exactly as
    /// [`spec_request_or_derived`] says.
    pub fn or_derived(
        given: Option<AttachmentRequest>,
        file_name: &str,
        content_type: &str,
    ) -> (r: AttachmentRequest)
        ensures
            r@ == spec_request_or_derived(
                match given {
                    Some(ref a) => Some(a@),
                    None => None,
                },
                file_name@,
                content_type@,
            ),
    {
        match given {
            Some(a) => a,
            None => AttachmentRequest::new(file_name, content_type, None, None),
        }
    }
}

/// What the remote side reports of a stored attachment.
#[derive(Debug, PartialEq)]
pub struct AttachmentResponse {
    pub comment: Option<String>,
    pub content_type: Option<String>,
    pub created: Option<DateTimeValue>,
    pub creator: Option<String>,
    pub file_name: Option<String>,
    pub file_size: i64,
    pub id: i64,
    pub page_id: i64,
    pub title: Option<String>,
    pub url: Option<String>,
}

/// Mathematical model of [`AttachmentResponse`].
#[verifier::ext_equal]
pub struct AttachmentResponseV {
    pub comment: Option<Seq<char>>,
    pub content_type: Option<Seq<char>>,
    pub created: Option<DateTimeValue>,
    pub creator: Option<Seq<char>>,
    pub file_name: Option<Seq<char>>,
    pub file_size: i64,
    pub id: i64,
    pub page_id: i64,
    pub title: Option<Seq<char>>,
    pub url: Option<Seq<char>>,
}

impl View for AttachmentResponse {
    type V = AttachmentResponseV;

    open spec fn view(&self) -> AttachmentResponseV {
        AttachmentResponseV {
            comment: match self.comment {
                Some(ref s) => Some(s@),
                None => None,
            },
            content_type: match self.content_type {
                Some(ref s) => Some(s@),
                None => None,
            },
            created: self.created,
            creator: match self.creator {
                Some(ref s) => Some(s@),
                None => None,
            },
            file_name: match self.file_name {
                Some(ref s) => Some(s@),
                None => None,
            },
            file_size: self.file_size,
            id: self.id,
            page_id: self.page_id,
            title: match self.title {
                Some(ref s) => Some(s@),
                None => None,
            },
            url: match self.url {
                Some(ref s) => Some(s@),
                None => None,
            },
        }
    }
}

/// The standard, padded base64 text of a byte sequence; the result depends
/// on the bytes alone.
pub uninterp spec fn base64_standard(b: Seq<u8>) -> Seq<char>;

/// Relies on `base64::encode`: the standard alphabet with padding, a pure
/// function of the input bytes.
#[verifier::external_body]
pub fn base64_encode(data: &Vec<u8>) -> (r: String)
    ensures
        r@ == base64_standard(data@),
{
    base64::encode(data)
}

} // verus!
