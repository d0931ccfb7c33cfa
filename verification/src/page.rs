//! Page records: the full page, the child summary, and the shapes used to
//! create or update a page.

use vstd::prelude::*;
use crate::datetime::DateTimeValue;

verus! {

/// A full page.
#[derive(Debug, PartialEq)]
pub struct Page {
    pub id: i64,
    pub space: String,
    pub parent_id: i64,
    pub title: String,
    pub url: String,
    pub version: i32,
    pub content: String,
    pub created: DateTimeValue,
    pub creator: String,
    pub modified: DateTimeValue,
    pub modifier: String,
    pub home_page: bool,
    pub content_status: String,
    pub current: bool,
}

/// Mathematical model of [`Page`].
#[verifier::ext_equal]
pub struct PageV {
    pub id: i64,
    pub space: Seq<char>,
    pub parent_id: i64,
    pub title: Seq<char>,
    pub url: Seq<char>,
    pub version: i32,
    pub content: Seq<char>,
    pub created: DateTimeValue,
    pub creator: Seq<char>,
    pub modified: DateTimeValue,
    pub modifier: Seq<char>,
    pub home_page: bool,
    pub content_status: Seq<char>,
    pub current: bool,
}

impl View for Page {
    type V = PageV;

    open spec fn view(&self) -> PageV {
        PageV {
            id: self.id,
            space: self.space@,
            parent_id: self.parent_id,
            title: self.title@,
            url: self.url@,
            version: self.version,
            content: self.content@,
            created: self.created,
            creator: self.creator@,
            modified: self.modified,
            modifier: self.modifier@,
            home_page: self.home_page,
            content_status: self.content_status@,
            current: self.current,
        }
    }
}

/// A direct child of a page, in summary form.
#[derive(Debug, PartialEq)]
pub struct PageSummary {
    pub id: i64,
    pub space: String,
    pub parent_id: i64,
    pub title: String,
    pub url: String,
}

/// Mathematical model of [`PageSummary`].
#[verifier::ext_equal]
pub struct PageSummaryV {
    pub id: i64,
    pub space: Seq<char>,
    pub parent_id: i64,
    pub title: Seq<char>,
    pub url: Seq<char>,
}

impl View for PageSummary {
    type V = PageSummaryV;

    open spec fn view(&self) -> PageSummaryV {
        PageSummaryV {
            id: self.id,
            space: self.space@,
            parent_id: self.parent_id,
            title: self.title@,
            url: self.url@,
        }
    }
}

/// What a store or update call sends: the always-required fields, and the
/// ones required only when updating an existing page.
#[derive(Debug, PartialEq)]
pub struct UpdatePage {
    pub id: Option<i64>,
    pub space: String,
    pub title: String,
    pub content: String,
    pub version: Option<i32>,
    pub parent_id: Option<i64>,
}

/// Mathematical model of [`UpdatePage`].
#[verifier::ext_equal]
pub struct UpdatePageV {
    pub id: Option<i64>,
    pub space: Seq<char>,
    pub title: Seq<char>,
    pub content: Seq<char>,
    pub version: Option<i32>,
    pub parent_id: Option<i64>,
}

impl View for UpdatePage {
    type V = UpdatePageV;

    open spec fn view(&self) -> UpdatePageV {
        UpdatePageV {
            id: self.id,
            space: self.space@,
            title: self.title@,
            content: self.content@,
            version: self.version,
            parent_id: self.parent_id,
        }
    }
}

impl UpdatePage {
    /// The shape for creating a new page: no id and no version yet.
    pub fn with_create_fields(
        parent_id: Option<i64>,
        space: &str,
        title: &str,
        content: &str,
    ) -> (r: UpdatePage)
        ensures
            r@ == (UpdatePageV {
                id: None,
                space: space@,
                title: title@,
                content: content@,
                version: None,
                parent_id,
            }),
    {
        UpdatePage {
            id: None,
            space: space.to_owned(),
            title: title.to_owned(),
            content: content.to_owned(),
            version: None,
            parent_id,
        }
    }

    /// The update shape of an existing page: every identifying field is
    /// carried over.
    pub fn from_page(page: Page) -> (r: UpdatePage)
        ensures
            r@ == (UpdatePageV {
                id: Some(page@.id),
                space: page@.space,
                title: page@.title,
                content: page@.content,
                version: Some(page@.version),
                parent_id: Some(page@.parent_id),
            }),
    {
        UpdatePage {
            id: Some(page.id),
            space: page.space,
            title: page.title,
            content: page.content,
            version: Some(page.version),
            parent_id: Some(page.parent_id),
        }
    }
}

/// The options of an update call.
#[derive(Debug, PartialEq)]
pub struct PageUpdateOptions {
    pub version_comment: Option<String>,
    pub minor_edit: bool,
}

/// Mathematical model of [`PageUpdateOptions`].
#[verifier::ext_equal]
pub struct PageUpdateOptionsV {
    pub version_comment: Option<Seq<char>>,
    pub minor_edit: bool,
}

impl View for PageUpdateOptions {
    type V = PageUpdateOptionsV;

    open spec fn view(&self) -> PageUpdateOptionsV {
        PageUpdateOptionsV {
            version_comment: match self.version_comment {
                Some(ref s) => Some(s@),
                None => None,
            },
            minor_edit: self.minor_edit,
        }
    }
}

} // verus!
