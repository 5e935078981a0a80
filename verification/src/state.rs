//! Settings that browsing follows.

use vstd::prelude::*;

use crate::config::{default_top_level, top_level_order};
use crate::text::texts;

verus! {

/// How browsing and searching behave.
#[derive(Debug)]
pub struct BrowseSettings {
    /// How many albums are recently added at most; `usize::MAX` for no limit.
    pub recently_added_limit: usize,
    /// Age in days beyond which an album is not recently added; none for no limit.
    pub recently_added_max_age_days: Option<u32>,
    /// How many albums a random selection holds at most; `usize::MAX` for no limit.
    pub random_albums_limit: usize,
    /// Whether the quality facets are shown at the top.
    pub quality_categories: bool,
    /// Which facets stand at the top, and in what order.
    pub top_level: Vec<String>,
    /// Whether a search that finds nothing tries again for misspelt words.
    pub search_fuzzy_enabled: bool,
    /// After how many hours the random selection is drawn anew; none for never.
    pub random_albums_shuffle_interval_hours: Option<u32>,
}

/// A limit is at least one.
pub open spec fn at_least_one(n: usize) -> usize {
    if n < 1 {
        1
    } else {
        n
    }
}

impl BrowseSettings {
    /// Whether both limits leave room for something.
    pub open spec fn wf(self) -> bool {
        self.recently_added_limit >= 1 && self.random_albums_limit >= 1
    }

    /// Settings with the given values, the limits raised to one where they are
    /// zero, and the rest at its default.
    pub fn from_parts(
        recently_added_limit: usize,
        recently_added_max_age_days: Option<u32>,
        random_albums_limit: usize,
        quality_categories: bool,
    ) -> (r: Self)
        ensures
            r.wf(),
            r.recently_added_limit == at_least_one(recently_added_limit),
            r.recently_added_max_age_days == recently_added_max_age_days,
            r.random_albums_limit == at_least_one(random_albums_limit),
            r.quality_categories == quality_categories,
            texts(r.top_level@) == top_level_order(),
            r.search_fuzzy_enabled,
            r.random_albums_shuffle_interval_hours is None,
    {
        BrowseSettings {
            recently_added_limit: if recently_added_limit < 1 { 1 } else { recently_added_limit },
            recently_added_max_age_days,
            random_albums_limit: if random_albums_limit < 1 { 1 } else { random_albums_limit },
            quality_categories,
            top_level: default_top_level(),
            search_fuzzy_enabled: true,
            random_albums_shuffle_interval_hours: None,
        }
    }
}

impl Default for BrowseSettings {
    /// No limit, and every facet in its usual order.
    fn default() -> (r: Self)
        ensures
            r.wf(),
            r.recently_added_limit == usize::MAX,
            r.recently_added_max_age_days is None,
            r.random_albums_limit == usize::MAX,
            r.quality_categories,
            texts(r.top_level@) == top_level_order(),
            r.search_fuzzy_enabled,
            r.random_albums_shuffle_interval_hours is None,
    {
        BrowseSettings::from_parts(usize::MAX, None, usize::MAX, true)
    }
}

} // verus!
