//! What a scan reports.

use uuid::Uuid;
use vstd::prelude::*;

use crate::text;

verus! {

/// The report of a scan, kept and shown to the administrator.
#[derive(Debug)]
pub struct ScanReport {
    pub scan_id: String,
    pub started_at: i64,
    pub completed_at: i64,
    pub duration_ms: u64,
    pub is_initial: bool,
    pub stats: ScanStats,
    pub issues: Vec<Issue>,
    pub skipped: Vec<SkippedEntry>,
    /// Why the scan failed, where it did.
    pub error: Option<String>,
}

/// What a scan counted.
#[derive(Debug, Clone, Copy, PartialEq, Eq, Structural)]
pub struct ScanStats {
    pub files_enumerated: usize,
    pub tracks_inserted: usize,
    pub tracks_updated: usize,
    pub tracks_unchanged: usize,
    pub tracks_deleted: usize,
    pub albums_inserted: usize,
    pub albums_deleted: usize,
    pub tag_read_failed: usize,
    /// Cover images, logs, playlists and the like, seen beside the music.
    pub companion_files_seen: usize,
}

/// Nothing counted.
pub open spec fn no_stats() -> ScanStats {
    ScanStats {
        files_enumerated: 0,
        tracks_inserted: 0,
        tracks_updated: 0,
        tracks_unchanged: 0,
        tracks_deleted: 0,
        albums_inserted: 0,
        albums_deleted: 0,
        tag_read_failed: 0,
        companion_files_seen: 0,
    }
}

impl Default for ScanStats {
    fn default() -> (r: Self)
        ensures
            r == no_stats(),
    {
        ScanStats {
            files_enumerated: 0,
            tracks_inserted: 0,
            tracks_updated: 0,
            tracks_unchanged: 0,
            tracks_deleted: 0,
            albums_inserted: 0,
            albums_deleted: 0,
            tag_read_failed: 0,
            companion_files_seen: 0,
        }
    }
}

/// A tag that wants mending in a track that can still be played.
#[derive(Debug)]
pub struct Issue {
    pub path: String,
    pub issue: &'static str,
}

/// An issue as text.
pub struct IssueView {
    pub path: Seq<char>,
    pub issue: Seq<char>,
}

impl View for Issue {
    type V = IssueView;

    open spec fn view(&self) -> IssueView {
        IssueView { path: self.path@, issue: self.issue@ }
    }
}

pub open spec fn issues_view(issues: Seq<Issue>) -> Seq<IssueView> {
    issues.map_values(|i: Issue| i@)
}

/// A file that was left out.
#[derive(Debug)]
pub struct SkippedEntry {
    pub path: String,
    pub reason: &'static str,
}

/// A left-out file as text.
pub struct SkippedView {
    pub path: Seq<char>,
    pub reason: Seq<char>,
}

impl View for SkippedEntry {
    type V = SkippedView;

    open spec fn view(&self) -> SkippedView {
        SkippedView { path: self.path@, reason: self.reason@ }
    }
}

pub open spec fn skipped_view(skipped: Seq<SkippedEntry>) -> Seq<SkippedView> {
    skipped.map_values(|s: SkippedEntry| s@)
}

/// A small hexadecimal digit.
pub open spec fn is_hex(c: char) -> bool {
    '0' <= c <= '9' || 'a' <= c <= 'f'
}

/// A random UUID in its usual spelling: small hexadecimal digits in groups of 8, 4,
/// 4, 4 and 12 with hyphens between, the third group beginning with the version 4
/// and the fourth with the variant's two bits.
pub open spec fn is_random_uuid(s: Seq<char>) -> bool {
    &&& s.len() == 36
    &&& forall|i: int|
        0 <= i < 36 ==> if i == 8 || i == 13 || i == 18 || i == 23 {
            #[trigger] s[i] == '-'
        } else {
            is_hex(s[i])
        }
    &&& s[14] == '4'
    &&& s[19] == '8' || s[19] == '9' || s[19] == 'a' || s[19] == 'b'
}

/// `uuid::Uuid::new_v4` as text. Which one comes is left to chance.
#[verifier::external_body]
pub(crate) fn new_uuid() -> (r: String)
    ensures
        is_random_uuid(r@),
{
    Uuid::new_v4().to_string()
}

impl ScanReport {
    /// An id for a new scan.
    pub fn new_id() -> (r: String)
        ensures
            is_random_uuid(r@),
    {
        new_uuid()
    }

    /// The report of a scan that failed: nothing counted, and the reason.
    pub fn failure(
        scan_id: &str,
        started_at: i64,
        completed_at: i64,
        duration_ms: u64,
        error: &str,
    ) -> (r: Self)
        ensures
            r.scan_id@ == scan_id@,
            r.started_at == started_at,
            r.completed_at == completed_at,
            r.duration_ms == duration_ms,
            !r.is_initial,
            r.stats == no_stats(),
            r.issues@.len() == 0,
            r.skipped@.len() == 0,
            text::opt_text(r.error) == Some(error@),
    {
        ScanReport {
            scan_id: text::owned(scan_id),
            started_at,
            completed_at,
            duration_ms,
            is_initial: false,
            stats: ScanStats::default(),
            issues: Vec::new(),
            skipped: Vec::new(),
            error: Some(text::owned(error)),
        }
    }
}

} // verus!
