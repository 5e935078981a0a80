//! The configuration file's contents and their defaults.

use vstd::prelude::*;

use crate::text::{self, texts};

verus! {

/// Everything that the configuration file says.
#[derive(Debug)]
pub struct Config {
    pub server: Server,
    pub library: Library,
    pub scan: Scan,
    pub browse: Browse,
}

#[derive(Debug)]
pub struct Server {
    pub friendly_name: String,
    pub http_port: u16,
    pub uuid: String,
    pub db_path: String,
    /// The address to listen on. The default is visible across the LAN.
    pub bind_address: String,
}

#[derive(Debug)]
pub struct Library {
    pub root: String,
    pub extensions: Vec<String>,
}

#[derive(Debug)]
pub struct Scan {
    pub on_startup: bool,
    pub parallel: usize,
}

#[derive(Debug)]
pub struct Browse {
    pub recently_added_limit: usize,
    /// Age in days beyond which an album is not recently added; none for no limit.
    pub recently_added_max_age_days: Option<u32>,
    pub random_albums_limit: usize,
    /// Whether the quality facets are shown.
    pub quality_categories: bool,
    /// Which facets stand at the top, and in what order. Unknown ones are passed
    /// over.
    pub top_level: Vec<String>,
    pub quality_in_title: bool,
    pub quality_in_title_format: String,
    pub quality_in_title_include: Vec<String>,
    pub quality_in_title_show_specs: bool,
}

/// Whether a device id is to be made up.
pub fn default_uuid() -> (r: String)
    ensures
        r@ == "auto"@,
{
    text::owned("auto")
}

pub fn default_db_path() -> (r: String)
    ensures
        r@ == "revolver.db"@,
{
    text::owned("revolver.db")
}

pub fn default_bind_address() -> (r: String)
    ensures
        r@ == "0.0.0.0"@,
{
    text::owned("0.0.0.0")
}

pub fn default_quality_in_title_format() -> (r: String)
    ensures
        r@ == "[{q}]"@,
{
    text::owned("[{q}]")
}

/// Every facet in its usual order.
pub open spec fn top_level_order() -> Seq<Seq<char>> {
    seq![
        "cat:aa"@,
        "cat:ar"@,
        "cat:al"@,
        "cat:gn"@,
        "cat:recent"@,
        "cat:played"@,
        "cat:random"@,
        "cat:hires"@,
        "cat:lossy"@,
        "cat:mixed"@,
        "cat:cm"@,
        "cat:cn"@,
        "cat:pf"@,
        "cat:yr"@,
        "cat:dec"@,
    ]
}

pub fn default_top_level() -> (r: Vec<String>)
    ensures
        texts(r@) == top_level_order(),
{
    let r = vec![
        text::owned("cat:aa"),
        text::owned("cat:ar"),
        text::owned("cat:al"),
        text::owned("cat:gn"),
        text::owned("cat:recent"),
        text::owned("cat:played"),
        text::owned("cat:random"),
        text::owned("cat:hires"),
        text::owned("cat:lossy"),
        text::owned("cat:mixed"),
        text::owned("cat:cm"),
        text::owned("cat:cn"),
        text::owned("cat:pf"),
        text::owned("cat:yr"),
        text::owned("cat:dec"),
    ];
    assert(texts(r@) =~= top_level_order());
    r
}

pub fn default_quality_in_title_include() -> (r: Vec<String>)
    ensures
        texts(r@) == seq!["hires"@, "lossy"@, "mixed"@],
{
    let r = vec![text::owned("hires"), text::owned("lossy"), text::owned("mixed")];
    assert(texts(r@) =~= seq!["hires"@, "lossy"@, "mixed"@]);
    r
}

} // verus!
