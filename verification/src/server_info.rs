//! RemoteServerInfo.

use vstd::prelude::*;

verus! {

/// Information about the remote server this session talks to.
#[derive(Debug, PartialEq)]
pub struct RemoteServerInfo {
    pub base_url: Option<String>,
    pub build_id: Option<String>,
    pub development_build: bool,
    pub major_version: i32,
    pub minor_version: i32,
    pub patch_level: i32,
}

/// Mathematical model of [`RemoteServerInfo`].
#[verifier::ext_equal]
pub struct RemoteServerInfoV {
    pub base_url: Option<Seq<char>>,
    pub build_id: Option<Seq<char>>,
    pub development_build: bool,
    pub major_version: i32,
    pub minor_version: i32,
    pub patch_level: i32,
}

impl View for RemoteServerInfo {
    type V = RemoteServerInfoV;

    open spec fn view(&self) -> RemoteServerInfoV {
        RemoteServerInfoV {
            base_url: match self.base_url {
                Some(ref s) => Some(s@),
                None => None,
            },
            build_id: match self.build_id {
                Some(ref s) => Some(s@),
                None => None,
            },
            development_build: self.development_build,
            major_version: self.major_version,
            minor_version: self.minor_version,
            patch_level: self.patch_level,
        }
    }
}

} // verus!
