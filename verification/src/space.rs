//! The space record.

use vstd::prelude::*;

verus! {

/// A space of the remote document store.
#[derive(Debug, PartialEq)]
pub struct Space {
    pub description: Option<String>,
    pub home_page: i64,
    pub key: String,
    pub name: String,
    pub space_group: Option<String>,
    pub space_type: String,
    pub url: String,
}

/// Mathematical model of [`Space`].
#[verifier::ext_equal]
pub struct SpaceV {
    pub description: Option<Seq<char>>,
    pub home_page: i64,
    pub key: Seq<char>,
    pub name: Seq<char>,
    pub space_group: Option<Seq<char>>,
    pub space_type: Seq<char>,
    pub url: Seq<char>,
}

impl View for Space {
    type V = SpaceV;

    open spec fn view(&self) -> SpaceV {
        SpaceV {
            description: match self.description {
                Some(ref s) => Some(s@),
                None => None,
            },
            home_page: self.home_page,
            key: self.key@,
            name: self.name@,
            space_group: match self.space_group {
                Some(ref s) => Some(s@),
                None => None,
            },
            space_type: self.space_type@,
            url: self.url@,
        }
    }
}

} // verus!
