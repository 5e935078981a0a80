//! The settings that the administrator can change while the server runs: their
//! keys, what values they take, and how a change and the configuration file make
//! up the value in effect.

use vstd::hash_map::StringHashMap;
use vstd::prelude::*;

use crate::config::{default_top_level, top_level_order, Config};
use crate::db::config_overrides;
use crate::db::query::{
    answers_view, found_text, optional_text, Answer, AnswerView, Statement, StatementView, Step,
};
use crate::error::{Error, ErrorView};
use crate::json::{
    entries_view, opt_json, parsed_json, EntryView, JsonEntry, JsonValue, JsonView,
};
use crate::state::{at_least_one, BrowseSettings};
use crate::text::{self, decimal, texts};

verus! {

/// When a change takes effect.
#[derive(Debug, Clone, Copy, PartialEq, Eq, Structural)]
pub enum ReloadTier {
    /// With the next request.
    Runtime,
    /// After a further action, such as a scan.
    Reload,
    /// With the next start of the server.
    Restart,
}

impl ReloadTier {
    pub open spec fn name(self) -> Seq<char> {
        match self {
            ReloadTier::Runtime => "runtime"@,
            ReloadTier::Reload => "reload"@,
            ReloadTier::Restart => "restart"@,
        }
    }

    pub fn as_str(self) -> (r: &'static str)
        ensures
            r@ == self.name(),
    {
        match self {
            ReloadTier::Runtime => "runtime",
            ReloadTier::Reload => "reload",
            ReloadTier::Restart => "restart",
        }
    }
}

// ── The catalog ──────────────────────────────────────────────────────────

/// A setting that can be changed.
#[derive(Debug, Clone, Copy, PartialEq, Eq, Structural)]
pub enum Setting {
    RecentlyAddedLimit,
    RecentlyAddedMaxAgeDays,
    RandomAlbumsLimit,
    QualityCategories,
    TopLevel,
}

/// One of the values that a setting offers.
#[derive(Debug)]
pub struct ChoiceMeta {
    pub id: &'static str,
    pub label: &'static str,
}

/// A setting with what is shown of it.
#[derive(Debug)]
pub struct ConfigKey {
    pub key: &'static str,
    pub label: &'static str,
    pub description: &'static str,
    pub reload_tier: ReloadTier,
    pub setting: Setting,
}

impl Setting {
    pub open spec fn name(self) -> Seq<char> {
        match self {
            Setting::RecentlyAddedLimit => "browse.recently_added_limit"@,
            Setting::RecentlyAddedMaxAgeDays => "browse.recently_added_max_age_days"@,
            Setting::RandomAlbumsLimit => "browse.random_albums_limit"@,
            Setting::QualityCategories => "browse.quality_categories"@,
            Setting::TopLevel => "browse.top_level"@,
        }
    }

    /// What the setting is called where it is shown.
    pub open spec fn label(self) -> Seq<char> {
        match self {
            Setting::RecentlyAddedLimit => "Recently Added limit"@,
            Setting::RecentlyAddedMaxAgeDays => "Recently Added age limit"@,
            Setting::RandomAlbumsLimit => "Random Albums limit"@,
            Setting::QualityCategories => "Quality categories"@,
            Setting::TopLevel => "Top-level categories"@,
        }
    }

    /// What the setting is for, in a sentence or two.
    pub open spec fn description(self) -> Seq<char> {
        match self {
            Setting::RecentlyAddedLimit => "How many albums Recently Added shows at most. Empty for no limit."@,
            Setting::RecentlyAddedMaxAgeDays => "Days after which an album leaves Recently Added. Empty for never."@,
            Setting::RandomAlbumsLimit => "How many albums Random Albums shows at most. Empty for no limit."@,
            Setting::QualityCategories => "Whether Hi-Res, Lossy and Mixed Quality stand at the top."@,
            Setting::TopLevel => "Which categories stand at the top, and in what order."@,
        }
    }

    /// The key under which a change is kept.
    pub fn key(self) -> (r: &'static str)
        ensures
            r@ == self.name(),
    {
        match self {
            Setting::RecentlyAddedLimit => "browse.recently_added_limit",
            Setting::RecentlyAddedMaxAgeDays => "browse.recently_added_max_age_days",
            Setting::RandomAlbumsLimit => "browse.random_albums_limit",
            Setting::QualityCategories => "browse.quality_categories",
            Setting::TopLevel => "browse.top_level",
        }
    }

    fn entry(self) -> (r: ConfigKey)
        ensures
            is_entry(r, self),
    {
        let (label, description) = match self {
            Setting::RecentlyAddedLimit => (
                "Recently Added limit",
                "How many albums Recently Added shows at most. Empty for no limit.",
            ),
            Setting::RecentlyAddedMaxAgeDays => (
                "Recently Added age limit",
                "Days after which an album leaves Recently Added. Empty for never.",
            ),
            Setting::RandomAlbumsLimit => (
                "Random Albums limit",
                "How many albums Random Albums shows at most. Empty for no limit.",
            ),
            Setting::QualityCategories => (
                "Quality categories",
                "Whether Hi-Res, Lossy and Mixed Quality stand at the top.",
            ),
            Setting::TopLevel => (
                "Top-level categories",
                "Which categories stand at the top, and in what order.",
            ),
        };
        ConfigKey {
            key: self.key(),
            label,
            description,
            reload_tier: ReloadTier::Runtime,
            setting: self,
        }
    }
}

/// Every setting, in order.
pub open spec fn settings() -> Seq<Setting> {
    seq![
        Setting::RecentlyAddedLimit,
        Setting::RecentlyAddedMaxAgeDays,
        Setting::RandomAlbumsLimit,
        Setting::QualityCategories,
        Setting::TopLevel,
    ]
}

/// Whether an entry is that of the setting.
pub open spec fn is_entry(e: ConfigKey, s: Setting) -> bool {
    &&& e.key@ == s.name()
    &&& e.label@ == s.label()
    &&& e.description@ == s.description()
    &&& e.reload_tier == ReloadTier::Runtime
    &&& e.setting == s
}

/// Whether the entries are those of the settings.
pub open spec fn are_entries(entries: Seq<ConfigKey>, of: Seq<Setting>) -> bool {
    &&& entries.len() == of.len()
    &&& forall|i: int| #![trigger entries[i]] 0 <= i < of.len() ==> is_entry(entries[i], of[i])
}

/// The entries of every setting.
pub fn catalog() -> (r: Vec<ConfigKey>)
    ensures
        are_entries(r@, settings()),
{
    vec![
        Setting::RecentlyAddedLimit.entry(),
        Setting::RecentlyAddedMaxAgeDays.entry(),
        Setting::RandomAlbumsLimit.entry(),
        Setting::QualityCategories.entry(),
        Setting::TopLevel.entry(),
    ]
}

/// The setting with the given key.
pub open spec fn found(key: Seq<char>) -> Option<Setting> {
    if key == Setting::RecentlyAddedLimit.name() {
        Some(Setting::RecentlyAddedLimit)
    } else if key == Setting::RecentlyAddedMaxAgeDays.name() {
        Some(Setting::RecentlyAddedMaxAgeDays)
    } else if key == Setting::RandomAlbumsLimit.name() {
        Some(Setting::RandomAlbumsLimit)
    } else if key == Setting::QualityCategories.name() {
        Some(Setting::QualityCategories)
    } else if key == Setting::TopLevel.name() {
        Some(Setting::TopLevel)
    } else {
        None
    }
}

pub fn find_setting(key: &str) -> (r: Option<Setting>)
    ensures
        r == found(key@),
{
    if text::same(key, Setting::RecentlyAddedLimit.key()) {
        Some(Setting::RecentlyAddedLimit)
    } else if text::same(key, Setting::RecentlyAddedMaxAgeDays.key()) {
        Some(Setting::RecentlyAddedMaxAgeDays)
    } else if text::same(key, Setting::RandomAlbumsLimit.key()) {
        Some(Setting::RandomAlbumsLimit)
    } else if text::same(key, Setting::QualityCategories.key()) {
        Some(Setting::QualityCategories)
    } else if text::same(key, Setting::TopLevel.key()) {
        Some(Setting::TopLevel)
    } else {
        None
    }
}

/// The entry with the given key.
pub fn find(key: &str) -> (r: Option<ConfigKey>)
    ensures
        match found(key@) {
            Some(s) => r matches Some(e) && is_entry(e, s),
            None => r is None,
        },
{
    match find_setting(key) {
        Some(s) => Some(s.entry()),
        None => None,
    }
}

/// Every setting is found under its key, and under no other.
pub proof fn keys_are_distinct(s: Setting, key: Seq<char>)
    ensures
        found(s.name()) == Some(s),
        found(key) == Some(s) ==> key == s.name(),
{
    reveal_strlit("browse.recently_added_limit");
    reveal_strlit("browse.recently_added_max_age_days");
    reveal_strlit("browse.random_albums_limit");
    reveal_strlit("browse.quality_categories");
    reveal_strlit("browse.top_level");
    let lengths = (
        Setting::RecentlyAddedLimit.name().len(),
        Setting::RecentlyAddedMaxAgeDays.name().len(),
        Setting::RandomAlbumsLimit.name().len(),
        Setting::QualityCategories.name().len(),
        Setting::TopLevel.name().len(),
    );
    assert(lengths == (27nat, 34nat, 26nat, 25nat, 16nat));
}

/// What the categories are called where they are chosen, in their usual order.
pub open spec fn choice_labels() -> Seq<Seq<char>> {
    seq![
        "Album Artists"@,
        "Artists"@,
        "Albums"@,
        "Genres"@,
        "Recently Added"@,
        "Recently Played"@,
        "Random Albums"@,
        "Hi-Res Albums"@,
        "Lossy Albums"@,
        "Mixed Quality"@,
        "Composers"@,
        "Conductors"@,
        "Performers"@,
        "Years"@,
        "Decades"@,
    ]
}

/// Whether these are the categories to choose from, in their usual order.
pub open spec fn are_choices(choices: Seq<ChoiceMeta>) -> bool {
    &&& choices.len() == top_level_order().len()
    &&& forall|i: int|
        #![trigger choices[i]]
        0 <= i < choices.len() ==> choices[i].id@ == top_level_order()[i] && choices[i].label@
            == choice_labels()[i]
}

/// What the top level can be made of.
pub fn top_level_choices() -> (r: Vec<ChoiceMeta>)
    ensures
        are_choices(r@),
{
    vec![
        ChoiceMeta { id: "cat:aa", label: "Album Artists" },
        ChoiceMeta { id: "cat:ar", label: "Artists" },
        ChoiceMeta { id: "cat:al", label: "Albums" },
        ChoiceMeta { id: "cat:gn", label: "Genres" },
        ChoiceMeta { id: "cat:recent", label: "Recently Added" },
        ChoiceMeta { id: "cat:played", label: "Recently Played" },
        ChoiceMeta { id: "cat:random", label: "Random Albums" },
        ChoiceMeta { id: "cat:hires", label: "Hi-Res Albums" },
        ChoiceMeta { id: "cat:lossy", label: "Lossy Albums" },
        ChoiceMeta { id: "cat:mixed", label: "Mixed Quality" },
        ChoiceMeta { id: "cat:cm", label: "Composers" },
        ChoiceMeta { id: "cat:cn", label: "Conductors" },
        ChoiceMeta { id: "cat:pf", label: "Performers" },
        ChoiceMeta { id: "cat:yr", label: "Years" },
        ChoiceMeta { id: "cat:dec", label: "Decades" },
    ]
}

// ── Values ───────────────────────────────────────────────────────────────

/// A value in the form in which it is kept, or what is wrong with it.
pub type Checked = Result<JsonView, Seq<char>>;

pub open spec fn checked_view(r: Result<JsonValue, String>) -> Checked {
    match r {
        Ok(v) => Ok(v@),
        Err(s) => Err(s@),
    }
}

pub open spec fn positive_int(v: JsonView) -> Checked {
    match v {
        JsonView::Number(n) => if n >= 1 {
            Ok(JsonView::Number(n))
        } else {
            Err("must be >= 1"@)
        },
        _ => Err("must be a positive integer"@),
    }
}

pub fn validate_positive_int(v: &JsonValue) -> (r: Result<JsonValue, String>)
    ensures
        checked_view(r) == positive_int(v@),
{
    match v {
        JsonValue::Number(n) => if *n >= 1 {
            Ok(JsonValue::Number(*n))
        } else {
            Err(text::owned("must be >= 1"))
        },
        _ => Err(text::owned("must be a positive integer")),
    }
}

pub open spec fn nullable_positive_int(v: JsonView) -> Checked {
    if v is Null {
        Ok(JsonView::Null)
    } else {
        positive_int(v)
    }
}

pub fn validate_nullable_positive_int(v: &JsonValue) -> (r: Result<JsonValue, String>)
    ensures
        checked_view(r) == nullable_positive_int(v@),
{
    match v {
        JsonValue::Null => Ok(JsonValue::Null),
        _ => validate_positive_int(v),
    }
}

pub open spec fn boolean(v: JsonView) -> Checked {
    match v {
        JsonView::Bool(b) => Ok(JsonView::Bool(b)),
        _ => Err("must be a boolean"@),
    }
}

pub fn validate_bool(v: &JsonValue) -> (r: Result<JsonValue, String>)
    ensures
        checked_view(r) == boolean(v@),
{
    match v {
        JsonValue::Bool(b) => Ok(JsonValue::Bool(*b)),
        _ => Err(text::owned("must be a boolean")),
    }
}

/// The entries without those that occurred before.
pub open spec fn deduped(v: Seq<EntryView>) -> Seq<EntryView>
    decreases v.len(),
{
    if v.len() == 0 {
        v
    } else {
        let before = deduped(v.drop_last());
        if before.contains(v.last()) {
            before
        } else {
            before.push(v.last())
        }
    }
}

/// The index of the first entry that is not a string, or their number.
pub open spec fn first_other(v: Seq<EntryView>) -> int
    decreases v.len(),
{
    if v.len() == 0 || v[0] is Further {
        0
    } else {
        1 + first_other(v.skip(1))
    }
}

/// A list of strings, of a limited length. Repetitions are dropped.
pub open spec fn string_array(v: JsonView) -> Checked {
    match v {
        JsonView::List(entries) => if entries.len() > 64 {
            Err("at most 64 entries"@)
        } else if first_other(entries) < entries.len() {
            Err("entry "@ + decimal(first_other(entries) as nat) + " must be a string"@)
        } else {
            Ok(JsonView::List(deduped(entries)))
        },
        _ => Err("must be an array"@),
    }
}

fn has_entry(v: &Vec<JsonEntry>, s: &str) -> (r: bool)
    ensures
        r == entries_view(v@).contains(EntryView::Text(s@)),
{
    let mut i: usize = 0;
    while i < v.len()
        invariant
            i <= v@.len(),
            forall|j: int| 0 <= j < i ==> #[trigger] entries_view(v@)[j] != EntryView::Text(s@),
        decreases v@.len() - i,
    {
        assert(entries_view(v@)[i as int] == v@[i as int]@);
        match &v[i] {
            JsonEntry::Text(e) => if text::same(e.as_str(), s) {
                return true;
            },
            JsonEntry::Further(_) => {},
        }
        i = i + 1;
    }
    false
}

/// Unknown ids are accepted: whoever shows the top level passes them over.
pub fn validate_string_array(v: &JsonValue) -> (r: Result<JsonValue, String>)
    ensures
        checked_view(r) == string_array(v@),
{
    let entries = match v {
        JsonValue::List(entries) => entries,
        _ => return Err(text::owned("must be an array")),
    };
    let ghost all = entries_view(entries@);
    if entries.len() > 64 {
        return Err(text::owned("at most 64 entries"));
    }
    let mut out: Vec<JsonEntry> = Vec::new();
    let mut i: usize = 0;
    assert(all.skip(0) =~= all);
    assert(entries_view(out@) =~= deduped(all.take(0)));
    while i < entries.len()
        invariant
            i <= entries@.len(),
            entries@.len() <= 64,
            all == entries_view(entries@),
            v@ == JsonView::List(all),
            first_other(all) == i + first_other(all.skip(i as int)),
            entries_view(out@) == deduped(all.take(i as int)),
        decreases entries@.len() - i,
    {
        assert(all[i as int] == entries@[i as int]@);
        assert(all.skip(i as int)[0] == all[i as int]);
        assert(all.skip(i as int).skip(1) =~= all.skip(i + 1));
        assert(all.take(i + 1).drop_last() =~= all.take(i as int));
        match &entries[i] {
            JsonEntry::Further(_) => {
                let index = text::number_text(i as u64);
                return Err(text::cat3("entry ", index.as_str(), " must be a string"));
            },
            JsonEntry::Text(s) => {
                if !has_entry(&out, s.as_str()) {
                    let ghost before = out@;
                    out.push(JsonEntry::Text(text::owned(s.as_str())));
                    assert(entries_view(out@) =~= entries_view(before).push(EntryView::Text(s@)));
                }
            },
        }
        i = i + 1;
    }
    assert(all.take(i as int) =~= all);
    Ok(JsonValue::List(out))
}

/// No entry of a deduplicated list occurs twice, and every entry of the list is in it.
pub proof fn deduped_keeps_each_once(v: Seq<EntryView>)
    ensures
        deduped(v).no_duplicates(),
        forall|e: EntryView| v.contains(e) <==> #[trigger] deduped(v).contains(e),
    decreases v.len(),
{
    if v.len() > 0 {
        let front = v.drop_last();
        let before = deduped(front);
        deduped_keeps_each_once(front);
        assert forall|e: EntryView| v.contains(e) <==> #[trigger] deduped(v).contains(e) by {
            if v.contains(e) {
                let i = v.lemma_contains_to_index(e);
                if i < front.len() {
                    assert(front[i] == e);
                    assert(before.contains(e));
                    let k = before.lemma_contains_to_index(e);
                    assert(deduped(v)[k] == e);
                } else if !before.contains(v.last()) {
                    assert(deduped(v)[before.len() as int] == e);
                }
            }
            if deduped(v).contains(e) {
                let k = deduped(v).lemma_contains_to_index(e);
                if k < before.len() {
                    assert(before[k] == e);
                    assert(before.contains(e));
                    let i = front.lemma_contains_to_index(e);
                    assert(v[i] == e);
                } else {
                    assert(v[v.len() - 1] == e);
                }
            }
        }
    }
}

impl Setting {
    /// The form in which a value of the setting is kept, or what is wrong with it.
    pub open spec fn checked(self, v: JsonView) -> Checked {
        match self {
            Setting::RecentlyAddedLimit => nullable_positive_int(v),
            Setting::RecentlyAddedMaxAgeDays => nullable_positive_int(v),
            Setting::RandomAlbumsLimit => nullable_positive_int(v),
            Setting::QualityCategories => boolean(v),
            Setting::TopLevel => string_array(v),
        }
    }

    pub fn validate(self, v: &JsonValue) -> (r: Result<JsonValue, String>)
        ensures
            checked_view(r) == self.checked(v@),
            r matches Ok(c) ==> c@.is_whole(),
    {
        let r = match self {
            Setting::RecentlyAddedLimit => validate_nullable_positive_int(v),
            Setting::RecentlyAddedMaxAgeDays => validate_nullable_positive_int(v),
            Setting::RandomAlbumsLimit => validate_nullable_positive_int(v),
            Setting::QualityCategories => validate_bool(v),
            Setting::TopLevel => validate_string_array(v),
        };
        proof {
            accepted_values_stay_accepted(self, v@);
        }
        r
    }

    /// What the configuration file says.
    pub open spec fn configured(self, cfg: Config) -> JsonView {
        match self {
            Setting::RecentlyAddedLimit => JsonView::Number(cfg.browse.recently_added_limit as u64),
            Setting::RecentlyAddedMaxAgeDays => match cfg.browse.recently_added_max_age_days {
                Some(n) => JsonView::Number(n as u64),
                None => JsonView::Null,
            },
            Setting::RandomAlbumsLimit => JsonView::Number(cfg.browse.random_albums_limit as u64),
            Setting::QualityCategories => JsonView::Bool(cfg.browse.quality_categories),
            Setting::TopLevel => JsonView::List(text_entries(texts(cfg.browse.top_level@))),
        }
    }

    pub fn default_value(self, cfg: &Config) -> (r: JsonValue)
        ensures
            r@ == self.configured(*cfg),
    {
        match self {
            Setting::RecentlyAddedLimit => JsonValue::Number(cfg.browse.recently_added_limit as u64),
            Setting::RecentlyAddedMaxAgeDays => match cfg.browse.recently_added_max_age_days {
                Some(n) => JsonValue::Number(n as u64),
                None => JsonValue::Null,
            },
            Setting::RandomAlbumsLimit => JsonValue::Number(cfg.browse.random_albums_limit as u64),
            Setting::QualityCategories => JsonValue::Bool(cfg.browse.quality_categories),
            Setting::TopLevel => JsonValue::List(entries_of(&cfg.browse.top_level)),
        }
    }
}

pub open spec fn text_entries(v: Seq<Seq<char>>) -> Seq<EntryView> {
    v.map_values(|s: Seq<char>| EntryView::Text(s))
}

fn entries_of(v: &Vec<String>) -> (r: Vec<JsonEntry>)
    ensures
        entries_view(r@) == text_entries(texts(v@)),
{
    let mut out: Vec<JsonEntry> = Vec::new();
    let mut i: usize = 0;
    while i < v.len()
        invariant
            i <= v@.len(),
            entries_view(out@) =~= text_entries(texts(v@)).take(i as int),
        decreases v@.len() - i,
    {
        let ghost before = out@;
        out.push(JsonEntry::Text(text::owned(v[i].as_str())));
        assert(entries_view(out@) =~= entries_view(before).push(EntryView::Text(v@[i as int]@)));
        i = i + 1;
    }
    assert(text_entries(texts(v@)).take(i as int) =~= text_entries(texts(v@)));
    out
}

/// What is kept of an accepted value is itself accepted, and stays as it is.
pub proof fn accepted_values_stay_accepted(s: Setting, v: JsonView)
    ensures
        s.checked(v) matches Ok(c) ==> c.is_whole() && s.checked(c) == Ok::<JsonView, Seq<char>>(c),
{
    if s is TopLevel && v is List {
        let entries = v->List_0;
        if entries.len() <= 64 && first_other(entries) >= entries.len() {
            let kept = deduped(entries);
            lemma_first_other(entries);
            lemma_deduped(entries);
            lemma_first_other(kept);
            deduped_keeps_each_once(entries);
            lemma_deduped_again(kept);
        }
    }
}

proof fn lemma_first_other(v: Seq<EntryView>)
    ensures
        0 <= first_other(v) <= v.len(),
        first_other(v) >= v.len() <==> (forall|i: int| 0 <= i < v.len() ==> (#[trigger] v[i]) is Text),
    decreases v.len(),
{
    if v.len() > 0 && v[0] is Text {
        lemma_first_other(v.skip(1));
        assert forall|i: int| 0 < i < v.len() implies v.skip(1)[i - 1] == #[trigger] v[i] by {}
        if first_other(v) >= v.len() {
            assert forall|i: int| 0 <= i < v.len() implies (#[trigger] v[i]) is Text by {
                if i > 0 {
                    assert(v.skip(1)[i - 1] is Text);
                }
            }
        }
        if forall|i: int| 0 <= i < v.len() ==> (#[trigger] v[i]) is Text {
            assert forall|i: int| 0 <= i < v.skip(1).len() implies (#[trigger] v.skip(1)[i]) is Text by {
                assert(v[i + 1] is Text);
            }
        }
    }
}

proof fn lemma_deduped(v: Seq<EntryView>)
    requires
        forall|i: int| 0 <= i < v.len() ==> (#[trigger] v[i]) is Text,
    ensures
        deduped(v).len() <= v.len(),
        forall|i: int| 0 <= i < deduped(v).len() ==> (#[trigger] deduped(v)[i]) is Text,
    decreases v.len(),
{
    if v.len() > 0 {
        let front = v.drop_last();
        assert forall|i: int| 0 <= i < front.len() implies (#[trigger] front[i]) is Text by {
            assert(v[i] is Text);
        }
        lemma_deduped(front);
        assert forall|i: int| 0 <= i < deduped(v).len() implies (#[trigger] deduped(v)[i]) is Text by {
            if i < deduped(front).len() {
                assert(deduped(v)[i] == deduped(front)[i]);
            }
        }
    }
}

proof fn lemma_deduped_again(v: Seq<EntryView>)
    requires
        v.no_duplicates(),
    ensures
        deduped(v) == v,
    decreases v.len(),
{
    if v.len() > 0 {
        let front = v.drop_last();
        lemma_deduped_again(front);
        if front.contains(v.last()) {
            let i = front.lemma_contains_to_index(v.last());
            assert(v[i] == v[v.len() - 1]);
        }
        assert(front.push(v.last()) =~= v);
    }
}

// ── Values in effect ─────────────────────────────────────────────────────

/// What the configuration file says of each setting, by its key.
pub struct DefaultsMap {
    values: StringHashMap<JsonValue>,
}

impl View for DefaultsMap {
    type V = Map<Seq<char>, JsonValue>;

    closed spec fn view(&self) -> Map<Seq<char>, JsonValue> {
        self.values@
    }
}

impl DefaultsMap {
    /// Nothing is said of any setting.
    pub fn new() -> (r: Self)
        ensures
            r@ == Map::<Seq<char>, JsonValue>::empty(),
    {
        DefaultsMap { values: StringHashMap::new() }
    }

    pub fn insert(&mut self, key: &str, value: JsonValue)
        ensures
            final(self)@ == old(self)@.insert(key@, value),
    {
        self.values.insert(text::owned(key), value);
    }

    /// What is said of a setting; `Null` where nothing is.
    pub open spec fn said(self, key: Seq<char>) -> JsonView {
        if self@.contains_key(key) {
            self@[key]@
        } else {
            JsonView::Null
        }
    }

    pub fn get(&self, key: &str) -> (r: JsonValue)
        ensures
            r@ == self.said(key@),
    {
        match self.values.get(key) {
            Some(v) => copy_json(v),
            None => JsonValue::Null,
        }
    }
}

pub fn copy_json(v: &JsonValue) -> (r: JsonValue)
    ensures
        r@ == v@,
{
    match v {
        JsonValue::Null => JsonValue::Null,
        JsonValue::Bool(b) => JsonValue::Bool(*b),
        JsonValue::Number(n) => JsonValue::Number(*n),
        JsonValue::Text(s) => JsonValue::Text(text::owned(s.as_str())),
        JsonValue::List(entries) => {
            let mut out: Vec<JsonEntry> = Vec::new();
            let mut i: usize = 0;
            while i < entries.len()
                invariant
                    i <= entries@.len(),
                    entries_view(out@) =~= entries_view(entries@).take(i as int),
                decreases entries@.len() - i,
            {
                let ghost before = out@;
                let e = match &entries[i] {
                    JsonEntry::Text(s) => JsonEntry::Text(text::owned(s.as_str())),
                    JsonEntry::Further(s) => JsonEntry::Further(text::owned(s.as_str())),
                };
                out.push(e);
                assert(entries_view(out@) =~= entries_view(before).push(e@));
                i = i + 1;
            }
            assert(entries_view(entries@).take(i as int) =~= entries_view(entries@));
            JsonValue::List(out)
        },
        JsonValue::Further(s) => JsonValue::Further(text::owned(s.as_str())),
    }
}

/// Whether the map says of every setting what the configuration file does.
pub open spec fn says(d: DefaultsMap, cfg: Config) -> bool {
    forall|s: Setting| #[trigger] d.said(s.name()) == s.configured(cfg)
}

/// What the configuration file says of every setting.
pub fn precompute_defaults(cfg: &Config) -> (r: DefaultsMap)
    ensures
        says(r, *cfg),
        forall|key: Seq<char>| found(key) is None ==> #[trigger] r.said(key) is Null,
{
    let mut d = DefaultsMap::new();
    proof {
        keys_are_distinct(Setting::RecentlyAddedLimit, Seq::empty());
        keys_are_distinct(Setting::RecentlyAddedMaxAgeDays, Seq::empty());
        keys_are_distinct(Setting::RandomAlbumsLimit, Seq::empty());
        keys_are_distinct(Setting::QualityCategories, Seq::empty());
        keys_are_distinct(Setting::TopLevel, Seq::empty());
    }
    d.insert(
        Setting::RecentlyAddedLimit.key(),
        Setting::RecentlyAddedLimit.default_value(cfg),
    );
    d.insert(
        Setting::RecentlyAddedMaxAgeDays.key(),
        Setting::RecentlyAddedMaxAgeDays.default_value(cfg),
    );
    d.insert(Setting::RandomAlbumsLimit.key(), Setting::RandomAlbumsLimit.default_value(cfg));
    d.insert(Setting::QualityCategories.key(), Setting::QualityCategories.default_value(cfg));
    d.insert(Setting::TopLevel.key(), Setting::TopLevel.default_value(cfg));
    d
}

/// The value in effect: the changed one, where it can be read; else what the
/// configuration file says.
pub open spec fn in_effect(said: JsonView, changed: Option<JsonView>) -> JsonView {
    match changed {
        Some(v) => v,
        None => said,
    }
}

/// What a kept change states, where there is one that can be read.
pub open spec fn stated(kept: Option<Seq<char>>) -> Option<JsonView> {
    match kept {
        Some(raw) => parsed_json(raw),
        None => None,
    }
}

pub fn read_change(kept: &Option<String>) -> (r: Option<JsonValue>)
    ensures
        opt_json(r) == stated(text::opt_text(*kept)),
{
    match kept {
        Some(raw) => JsonValue::parse(raw.as_str()),
        None => None,
    }
}

/// The value in effect, given what a kept change states.
pub fn resolve(defaults: &DefaultsMap, key: &str, changed: Option<JsonValue>) -> (r: JsonValue)
    ensures
        r@ == in_effect(defaults.said(key@), opt_json(changed)),
{
    match changed {
        Some(v) => v,
        None => defaults.get(key),
    }
}

/// The value of a setting that is in effect.
pub fn effective_value(defaults: &DefaultsMap, key: &str, answers: &[Answer]) -> (r: Step<
    JsonValue,
>)
    ensures
        r@ == crate::db::query::asked_once(
            config_overrides::keyed_stmt(config_overrides::GET_SQL@, key@),
            answers_view(answers@),
            |a: AnswerView|
                match found_text(a) {
                    Ok(kept) => Ok(in_effect(defaults.said(key@), stated(kept))),
                    Err(e) => Err(e),
                },
        ),
{
    match config_overrides::get(key, answers) {
        Step::Query(q) => Step::Query(q),
        Step::Execute(q) => Step::Execute(q),
        Step::Batch(b) => Step::Batch(b),
        Step::Done(Err(e)) => Step::Done(Err(e)),
        Step::Done(Ok(kept)) => Step::Done(Ok(resolve(defaults, key, read_change(&kept)))),
    }
}

/// The first of the answers to the settings' questions that is a failure.
pub open spec fn first_failure(answers: Seq<AnswerView>, from: int) -> Option<ErrorView>
    decreases answers.len() - from,
{
    if from >= answers.len() || from >= settings().len() {
        None
    } else {
        match found_text(answers[from]) {
            Err(e) => Some(e),
            Ok(_) => first_failure(answers, from + 1),
        }
    }
}

/// The question for a setting's change.
pub open spec fn question(s: Setting) -> StatementView {
    config_overrides::keyed_stmt(config_overrides::GET_SQL@, s.name())
}

/// What the answer to a setting's question states.
pub open spec fn change_in(a: AnswerView) -> Option<JsonView> {
    match found_text(a) {
        Ok(kept) => stated(kept),
        Err(_) => None,
    }
}

/// The values in effect, in the order of the settings.
pub open spec fn values_in_effect(defaults: DefaultsMap, answers: Seq<AnswerView>) -> Seq<JsonView> {
    settings().map(
        |i: int, s: Setting| in_effect(defaults.said(s.name()), change_in(answers[i])),
    )
}

/// Whether a step asks for each setting's change in turn and stops at the first
/// failure; `end` says what it ends with once every answer is there.
pub open spec fn asks_for_changes<T>(
    step: Step<T>,
    answers: Seq<AnswerView>,
    end: spec_fn(T) -> bool,
) -> bool {
    match first_failure(answers, 0) {
        Some(e) => step matches Step::Done(Err(x)) && x@ == e,
        None => if answers.len() < settings().len() {
            step matches Step::Query(q) && q@ == question(settings()[answers.len() as int])
        } else {
            step matches Step::Done(Ok(t)) && end(t)
        },
    }
}

fn setting_at(i: usize) -> (r: Setting)
    requires
        i < 5,
    ensures
        r == settings()[i as int],
{
    match i {
        0 => Setting::RecentlyAddedLimit,
        1 => Setting::RecentlyAddedMaxAgeDays,
        2 => Setting::RandomAlbumsLimit,
        3 => Setting::QualityCategories,
        _ => Setting::TopLevel,
    }
}

/// Why not every setting's change is known: there is more to ask, or an answer was a
/// failure.
#[derive(Debug)]
pub enum Pending {
    Ask(Statement),
    Failed(Error),
}

/// What the answers state of each setting.
pub fn read_changes(answers: &[Answer]) -> (r: Result<Vec<Option<JsonValue>>, Pending>)
    ensures
        match r {
            Ok(v) => {
                &&& first_failure(answers_view(answers@), 0) is None
                &&& answers@.len() >= settings().len()
                &&& v@.len() == settings().len()
                &&& forall|i: int|
                    0 <= i < v@.len() ==> opt_json(#[trigger] v@[i]) == change_in(answers@[i]@)
            },
            Err(Pending::Ask(q)) => {
                &&& first_failure(answers_view(answers@), 0) is None
                &&& answers@.len() < settings().len()
                &&& q@ == question(settings()[answers@.len() as int])
            },
            Err(Pending::Failed(e)) => first_failure(answers_view(answers@), 0) == Some(e@),
        },
{
    let ghost all = answers_view(answers@);
    let mut out: Vec<Option<JsonValue>> = Vec::new();
    let mut i: usize = 0;
    while i < answers.len() && i < 5
        invariant
            i <= answers@.len(),
            i <= 5,
            all == answers_view(answers@),
            first_failure(all, 0) == first_failure(all, i as int),
            out@.len() == i,
            forall|k: int| 0 <= k < i ==> opt_json(#[trigger] out@[k]) == change_in(answers@[k]@),
        decreases answers@.len() - i,
    {
        assert(all[i as int] == answers@[i as int]@);
        match optional_text(&answers[i]) {
            Err(e) => return Err(Pending::Failed(e)),
            Ok(kept) => out.push(read_change(&kept)),
        }
        i = i + 1;
    }
    if i < 5 {
        return Err(Pending::Ask(config_overrides::get_statement(setting_at(i).key())));
    }
    Ok(out)
}

// ── Browse settings ──────────────────────────────────────────────────────

/// A number; without one there is no limit. What is neither a number nor nothing
/// counts as `1`.
pub open spec fn limit_of(v: JsonView) -> usize {
    match v {
        JsonView::Number(n) => at_least_one(n as usize),
        JsonView::Null => usize::MAX,
        _ => 1,
    }
}

pub open spec fn max_age_of(v: JsonView) -> Option<u32> {
    match v {
        JsonView::Number(n) => Some(
            if n <= u32::MAX {
                n as u32
            } else {
                u32::MAX
            },
        ),
        _ => None,
    }
}

pub open spec fn flag_of(v: JsonView) -> bool {
    match v {
        JsonView::Bool(b) => b,
        _ => true,
    }
}

/// The text of an entry that is a string.
pub open spec fn text_of(e: EntryView) -> Option<Seq<char>> {
    match e {
        EntryView::Text(s) => Some(s),
        EntryView::Further(_) => None,
    }
}

/// The strings of a list, or the usual order for what is no list.
pub open spec fn order_of(v: JsonView) -> Seq<Seq<char>> {
    match v {
        JsonView::List(entries) => entries.filter_map(|e: EntryView| text_of(e)),
        _ => top_level_order(),
    }
}

/// Whether the settings hold the values in effect.
pub open spec fn settings_hold(s: BrowseSettings, values: Seq<JsonView>) -> bool {
    &&& s.wf()
    &&& s.recently_added_limit == limit_of(values[0])
    &&& s.recently_added_max_age_days == max_age_of(values[1])
    &&& s.random_albums_limit == limit_of(values[2])
    &&& s.quality_categories == flag_of(values[3])
    &&& texts(s.top_level@) == order_of(values[4])
    &&& s.search_fuzzy_enabled
    &&& s.random_albums_shuffle_interval_hours is None
}

fn read_limit(v: &JsonValue) -> (r: usize)
    ensures
        r == limit_of(v@),
{
    match v {
        JsonValue::Number(n) => {
            let limit: usize = *n as usize;
            if limit < 1 {
                1
            } else {
                limit
            }
        },
        JsonValue::Null => usize::MAX,
        _ => 1,
    }
}

fn read_order(v: &JsonValue) -> (r: Vec<String>)
    ensures
        texts(r@) == order_of(v@),
{
    let entries = match v {
        JsonValue::List(entries) => entries,
        _ => return default_top_level(),
    };
    let ghost f = |e: EntryView| text_of(e);
    let ghost all = entries_view(entries@);
    let mut out: Vec<String> = Vec::new();
    let mut i: usize = 0;
    proof {
        reveal(Seq::filter_map);
    }
    assert(texts(out@) =~= all.take(0).filter_map(f));
    while i < entries.len()
        invariant
            i <= entries@.len(),
            all == entries_view(entries@),
            f == (|e: EntryView| text_of(e)),
            texts(out@) == all.take(i as int).filter_map(f),
        decreases entries@.len() - i,
    {
        broadcast use Seq::lemma_filter_map_take_succ;

        assert(all[i as int] == entries@[i as int]@);
        let ghost before = out@;
        match &entries[i] {
            JsonEntry::Text(s) => {
                let t = text::owned(s.as_str());
                out.push(t);
                proof {
                    text::lemma_texts_push(before, t);
                }
            },
            JsonEntry::Further(_) => {},
        }
        i = i + 1;
        assert(texts(out@) =~= all.take(i as int).filter_map(f));
    }
    assert(all.take(i as int) =~= all);
    out
}

/// The settings that the values in effect, in the order of the settings, make up.
pub fn settings_from(values: &Vec<JsonValue>) -> (r: BrowseSettings)
    requires
        values@.len() == settings().len(),
    ensures
        settings_hold(r, values@.map_values(|v: JsonValue| v@)),
{
    let ghost seen = values@.map_values(|v: JsonValue| v@);
    assert(forall|i: int| 0 <= i < 5 ==> #[trigger] seen[i] == values@[i]@);
    let max_age: Option<u32> = match &values[1] {
        JsonValue::Number(n) => Some(if *n <= 4294967295 { *n as u32 } else { u32::MAX }),
        _ => None,
    };
    let quality = match &values[3] {
        JsonValue::Bool(b) => *b,
        _ => true,
    };
    let mut s = BrowseSettings::from_parts(
        read_limit(&values[0]),
        max_age,
        read_limit(&values[2]),
        quality,
    );
    s.top_level = read_order(&values[4]);
    s
}

/// The settings in effect: what the configuration file says, as far as nothing was
/// changed.
pub fn build_browse_settings(defaults: &DefaultsMap, answers: &[Answer]) -> (r: Step<
    BrowseSettings,
>)
    ensures
        asks_for_changes(
            r,
            answers_view(answers@),
            |s: BrowseSettings|
                settings_hold(s, values_in_effect(*defaults, answers_view(answers@))),
        ),
{
    let changes = match read_changes(answers) {
        Ok(v) => v,
        Err(Pending::Ask(q)) => return Step::Query(q),
        Err(Pending::Failed(e)) => return Step::Done(Err(e)),
    };
    let ghost all = values_in_effect(*defaults, answers_view(answers@));
    let mut values: Vec<JsonValue> = Vec::new();
    let mut i: usize = 0;
    while i < 5
        invariant
            i <= 5,
            changes@.len() == 5,
            values@.len() == i,
            all == values_in_effect(*defaults, answers_view(answers@)),
            answers@.len() >= 5,
            forall|k: int|
                0 <= k < 5 ==> opt_json(#[trigger] changes@[k]) == change_in(answers@[k]@),
            forall|k: int| 0 <= k < i ==> #[trigger] values@[k]@ == all[k],
        decreases 5 - i,
    {
        assert(answers_view(answers@)[i as int] == answers@[i as int]@);
        let ghost before = values@;
        let value = match &changes[i] {
            Some(v) => copy_json(v),
            None => defaults.get(setting_at(i).key()),
        };
        assert(opt_json(changes@[i as int]) == change_in(answers@[i as int]@));
        values.push(value);
        assert(forall|k: int| 0 <= k < i ==> values@[k] == #[trigger] before[k]);
        i = i + 1;
    }
    assert(values@.map_values(|v: JsonValue| v@) =~= all);
    Step::Done(Ok(settings_from(&values)))
}

/// A change that was written is what is in effect, whatever the configuration file
/// says; without a change it is what the file says.
pub proof fn changes_take_effect(said: JsonView, kept: Seq<char>, v: JsonView)
    requires
        parsed_json(kept) == Some(v),
    ensures
        in_effect(said, stated(Some(kept))) == v,
        in_effect(said, stated(None)) == said,
{
}

/// Each value in effect makes up the setting of its own place: limits as numbers of at least
/// one, without end where there is none, the age in days, the quality categories as they are
/// wanted, and the categories at the top in their order.
pub proof fn settings_follow_their_values(values: &Vec<JsonValue>, r: BrowseSettings)
    requires
        values@.len() == 5,
        call_ensures(settings_from, (values,), r),
    ensures
        values@[0]@ matches JsonView::Number(n) ==> 1 <= n <= usize::MAX ==> r.recently_added_limit
            == n,
        values@[0]@ is Null ==> r.recently_added_limit == usize::MAX,
        values@[1]@ matches JsonView::Number(n) ==> n <= u32::MAX
            ==> r.recently_added_max_age_days == Some(n as u32),
        values@[1]@ is Null ==> r.recently_added_max_age_days is None,
        values@[2]@ matches JsonView::Number(n) ==> 1 <= n <= usize::MAX ==> r.random_albums_limit
            == n,
        values@[2]@ is Null ==> r.random_albums_limit == usize::MAX,
        values@[3]@ matches JsonView::Bool(b) ==> r.quality_categories == b,
        values@[4]@ matches JsonView::List(entries) ==> (forall|i: int|
            0 <= i < entries.len() ==> #[trigger] entries[i] is Text) ==> {
            &&& r.top_level@.len() == entries.len()
            &&& forall|i: int|
                0 <= i < entries.len() ==> entries[i] == EntryView::Text(
                    #[trigger] r.top_level@[i]@,
                )
        },
{
    let seen = values@.map_values(|v: JsonValue| v@);
    assert(forall|i: int| 0 <= i < 5 ==> #[trigger] seen[i] == values@[i]@);
    assert(seen[0] == values@[0]@ && seen[1] == values@[1]@ && seen[2] == values@[2]@ && seen[3]
        == values@[3]@ && seen[4] == values@[4]@);
    if let JsonView::List(entries) = values@[4]@ {
        if forall|i: int| 0 <= i < entries.len() ==> #[trigger] entries[i] is Text {
            let f = |e: EntryView| text_of(e);
            text::lemma_filter_map_keeps_all(entries, f);
            let all = texts(r.top_level@);
            assert(all == entries.filter_map(f));
            assert(all.len() == r.top_level@.len());
            assert forall|i: int| 0 <= i < entries.len() implies entries[i] == EntryView::Text(
                #[trigger] r.top_level@[i]@,
            ) by {
                assert(all[i] == r.top_level@[i]@);
                assert(f(entries[i]) == Some(entries.filter_map(f)[i]));
            }
        }
    }
}

} // verus!
