//! The names under which the device and its services are announced and searched for.

use vstd::prelude::*;

use crate::text;

verus! {

/// What is announced: the root device, the device by its id, the device by its type,
/// and its two services.
#[derive(Debug, Clone, Copy, PartialEq, Eq, Structural)]
pub enum NtTarget {
    RootDevice,
    Uuid,
    MediaServer,
    ContentDirectory,
    ConnectionManager,
}

pub const ROOT_DEVICE: &'static str = "upnp:rootdevice";

pub const MEDIA_SERVER: &'static str = "urn:schemas-upnp-org:device:MediaServer:1";

pub const CONTENT_DIRECTORY: &'static str = "urn:schemas-upnp-org:service:ContentDirectory:1";

pub const CONNECTION_MANAGER: &'static str = "urn:schemas-upnp-org:service:ConnectionManager:1";

impl NtTarget {
    /// Every target, in the order of announcement.
    pub open spec fn every() -> Seq<NtTarget> {
        seq![
            NtTarget::RootDevice,
            NtTarget::Uuid,
            NtTarget::MediaServer,
            NtTarget::ContentDirectory,
            NtTarget::ConnectionManager,
        ]
    }

    pub fn all() -> (r: Vec<NtTarget>)
        ensures
            r@ == NtTarget::every(),
    {
        let r = vec![
            NtTarget::RootDevice,
            NtTarget::Uuid,
            NtTarget::MediaServer,
            NtTarget::ContentDirectory,
            NtTarget::ConnectionManager,
        ];
        assert(r@ =~= NtTarget::every());
        r
    }

    pub open spec fn nt_text(self, uuid: Seq<char>) -> Seq<char> {
        match self {
            NtTarget::RootDevice => ROOT_DEVICE@,
            NtTarget::Uuid => "uuid:"@ + uuid,
            NtTarget::MediaServer => MEDIA_SERVER@,
            NtTarget::ContentDirectory => CONTENT_DIRECTORY@,
            NtTarget::ConnectionManager => CONNECTION_MANAGER@,
        }
    }

    /// The notification type.
    pub fn nt(&self, uuid: &str) -> (r: String)
        ensures
            r@ == self.nt_text(uuid@),
    {
        match self {
            NtTarget::RootDevice => text::owned(ROOT_DEVICE),
            NtTarget::Uuid => text::cat("uuid:", uuid),
            NtTarget::MediaServer => text::owned(MEDIA_SERVER),
            NtTarget::ContentDirectory => text::owned(CONTENT_DIRECTORY),
            NtTarget::ConnectionManager => text::owned(CONNECTION_MANAGER),
        }
    }

    pub open spec fn usn_text(self, uuid: Seq<char>) -> Seq<char> {
        if self is Uuid {
            "uuid:"@ + uuid
        } else {
            "uuid:"@ + uuid + "::"@ + self.nt_text(uuid)
        }
    }

    /// The unique service name.
    pub fn usn(&self, uuid: &str) -> (r: String)
        ensures
            r@ == self.usn_text(uuid@),
    {
        let device = text::cat("uuid:", uuid);
        match self {
            NtTarget::Uuid => device,
            _ => text::cat3(device.as_str(), "::", self.nt(uuid).as_str()),
        }
    }

    pub open spec fn answers_to(self, st: Seq<char>, uuid: Seq<char>) -> bool {
        st == "ssdp:all"@ || st == self.nt_text(uuid)
    }

    /// Whether a search for `st` asks for this target.
    pub fn matches_st(&self, st: &str, uuid: &str) -> (r: bool)
        ensures
            r == self.answers_to(st@, uuid@),
    {
        text::same(st, "ssdp:all") || text::same(st, self.nt(uuid).as_str())
    }
}

} // verus!
