//! `/admin/config`: showing, changing and reverting settings.

use vstd::prelude::*;

use crate::config_catalog::{
    are_choices, asks_for_changes, catalog, change_in, copy_json, effective_value, find_setting,
    found, in_effect, keys_are_distinct, read_changes, settings, top_level_choices, ChoiceMeta,
    DefaultsMap, Pending, ReloadTier, Setting,
};
use crate::db::config_overrides;
use crate::db::query::{
    answers_view, rows_of, text_at, Answer, AnswerView, Cell, Statement, StatementView, Step,
};
use crate::db::tracks::statements_view;
use crate::error::ErrorView;
use crate::http::HttpError;
use crate::json::{json_text, opt_json, parsed_json, JsonValue, JsonView};
use crate::text;

verus! {

/// A setting as it is shown.
#[derive(Debug)]
pub struct ConfigEntry {
    pub key: &'static str,
    pub label: &'static str,
    pub description: &'static str,
    pub value: JsonValue,
    pub default: JsonValue,
    /// `default` or `user`.
    pub source: &'static str,
    /// `runtime`, `reload` or `restart`.
    pub restart_required: &'static str,
    pub choices: Option<Vec<ChoiceMeta>>,
}

/// Whether a setting is shown as it is: its value in effect, what the configuration
/// file says, and which of the two it is.
pub open spec fn is_shown(e: ConfigEntry, s: Setting, said: JsonView, changed: Option<JsonView>) -> bool {
    &&& e.key@ == s.name()
    &&& e.label@ == s.label()
    &&& e.description@ == s.description()
    &&& e.value@ == in_effect(said, changed)
    &&& e.default@ == said
    &&& e.source@ == (if changed is Some {
        "user"@
    } else {
        "default"@
    })
    &&& e.restart_required@ == ReloadTier::Runtime.name()
    &&& match e.choices {
        Some(choices) => s is TopLevel && are_choices(choices@),
        None => !(s is TopLevel),
    }
}

/// Whether every setting is shown, in order.
pub open spec fn are_shown(
    entries: Seq<ConfigEntry>,
    defaults: DefaultsMap,
    answers: Seq<AnswerView>,
) -> bool {
    &&& entries.len() == settings().len()
    &&& forall|i: int|
        #![trigger entries[i]]
        0 <= i < entries.len() ==> is_shown(
            entries[i],
            settings()[i],
            defaults.said(settings()[i].name()),
            change_in(answers[i]),
        )
}

/// Show every setting.
pub fn get_config(defaults: &DefaultsMap, answers: &[Answer]) -> (r: Step<Vec<ConfigEntry>>)
    ensures
        asks_for_changes(
            r,
            answers_view(answers@),
            |v: Vec<ConfigEntry>| are_shown(v@, *defaults, answers_view(answers@)),
        ),
{
    let changes = match read_changes(answers) {
        Ok(v) => v,
        Err(Pending::Ask(q)) => return Step::Query(q),
        Err(Pending::Failed(e)) => return Step::Done(Err(e)),
    };
    let keys = catalog();
    let mut out: Vec<ConfigEntry> = Vec::new();
    let mut i: usize = 0;
    while i < keys.len()
        invariant
            i <= keys@.len(),
            keys@.len() == 5,
            changes@.len() == 5,
            answers@.len() >= 5,
            crate::config_catalog::are_entries(keys@, settings()),
            out@.len() == i,
            forall|k: int|
                0 <= k < 5 ==> opt_json(#[trigger] changes@[k]) == change_in(answers@[k]@),
            forall|k: int|
                #![trigger out@[k]]
                0 <= k < i ==> is_shown(
                    out@[k],
                    settings()[k],
                    defaults.said(settings()[k].name()),
                    change_in(answers_view(answers@)[k]),
                ),
        decreases keys@.len() - i,
    {
        assert(answers_view(answers@)[i as int] == answers@[i as int]@);
        assert(opt_json(changes@[i as int]) == change_in(answers@[i as int]@));
        let key = &keys[i];
        let default = defaults.get(key.key);
        let (value, source) = match &changes[i] {
            Some(v) => (copy_json(v), "user"),
            None => (copy_json(&default), "default"),
        };
        let choices = match key.setting {
            Setting::TopLevel => Some(top_level_choices()),
            _ => None,
        };
        out.push(
            ConfigEntry {
                key: key.key,
                label: key.label,
                description: key.description,
                value,
                default,
                source,
                restart_required: key.reload_tier.as_str(),
                choices,
            },
        );
        i = i + 1;
    }
    Step::Done(Ok(out))
}

// ── Changing ─────────────────────────────────────────────────────────────

/// Why a change is not made.
#[derive(Debug)]
pub enum ConfigUpdateError {
    UnknownKey(String),
    Invalid { key: String, reason: String },
    /// The cause goes to the log, never to the client.
    Internal(String),
}

/// Why a change is not made, as text.
pub enum ConfigUpdateErrorView {
    UnknownKey(Seq<char>),
    Invalid { key: Seq<char>, reason: Seq<char> },
    Internal(Seq<char>),
}

impl View for ConfigUpdateError {
    type V = ConfigUpdateErrorView;

    open spec fn view(&self) -> ConfigUpdateErrorView {
        match self {
            ConfigUpdateError::UnknownKey(k) => ConfigUpdateErrorView::UnknownKey(k@),
            ConfigUpdateError::Invalid { key, reason } => ConfigUpdateErrorView::Invalid {
                key: key@,
                reason: reason@,
            },
            ConfigUpdateError::Internal(m) => ConfigUpdateErrorView::Internal(m@),
        }
    }
}

impl ConfigUpdateErrorView {
    pub open spec fn status(self) -> u16 {
        match self {
            ConfigUpdateErrorView::Internal(_) => 500,
            _ => 422,
        }
    }

    pub open spec fn body(self) -> Seq<char> {
        match self {
            ConfigUpdateErrorView::UnknownKey(key) => "unknown config key: "@ + key,
            ConfigUpdateErrorView::Invalid { key, reason } => "invalid value for "@ + key + ": "@
                + reason,
            ConfigUpdateErrorView::Internal(_) => "internal error"@,
        }
    }
}

impl ConfigUpdateError {
    /// The status and the text with which the client is told.
    pub fn reply(&self) -> (r: (u16, String))
        ensures
            r.0 == self@.status(),
            r.1@ == self@.body(),
    {
        match self {
            ConfigUpdateError::UnknownKey(key) => (
                422,
                text::cat("unknown config key: ", key.as_str()),
            ),
            ConfigUpdateError::Invalid { key, reason } => {
                let head = text::cat3("invalid value for ", key.as_str(), ": ");
                (422, text::cat(head.as_str(), reason.as_str()))
            },
            ConfigUpdateError::Internal(_) => (500, text::owned("internal error")),
        }
    }
}

/// A change as it was asked for: a key and a value.
#[derive(Debug)]
pub struct Change {
    pub key: String,
    pub value: JsonValue,
}

/// What is wrong with a change, if anything is.
pub open spec fn fault(c: Change) -> Option<ConfigUpdateErrorView> {
    match found(c.key@) {
        None => Some(ConfigUpdateErrorView::UnknownKey(c.key@)),
        Some(s) => match s.checked(c.value@) {
            Err(reason) => Some(ConfigUpdateErrorView::Invalid { key: c.key@, reason }),
            Ok(_) => None,
        },
    }
}

/// What is wrong with the first change that has something wrong with it.
pub open spec fn first_fault(changes: Seq<Change>) -> Option<ConfigUpdateErrorView>
    decreases changes.len(),
{
    if changes.len() == 0 {
        None
    } else {
        match first_fault(changes.drop_last()) {
            Some(e) => Some(e),
            None => fault(changes.last()),
        }
    }
}

/// The form in which the value of a change is kept.
pub open spec fn kept_value(c: Change) -> JsonView {
    found(c.key@)->0.checked(c.value@)->Ok_0
}

/// The statement that keeps a change.
pub open spec fn keep_stmt(c: Change, now: i64) -> StatementView {
    config_overrides::set_stmt(c.key@, json_text(kept_value(c)), now)
}

/// What is to be done for a set of changes.
#[derive(Debug)]
pub struct UpdatePlan {
    /// The statements that keep the changes.
    pub statements: Vec<Statement>,
    /// Whether the random selection has to be drawn anew.
    pub reshuffle: bool,
}

/// Plan a set of changes. Nothing is to be done unless every change is in order; what
/// is then kept is read back as the value that was accepted.
pub fn post_config(changes: &Vec<Change>, now: i64) -> (r: Result<UpdatePlan, ConfigUpdateError>)
    ensures
        match r {
            Err(e) => first_fault(changes@) == Some(e@),
            Ok(plan) => {
                &&& first_fault(changes@) is None
                &&& statements_view(plan.statements@) == changes@.map_values(
                    |c: Change| keep_stmt(c, now),
                )
                &&& forall|i: int|
                    0 <= i < changes@.len() ==> parsed_json(
                        json_text(kept_value(#[trigger] changes@[i])),
                    ) == Some(kept_value(changes@[i]))
                &&& plan.reshuffle == exists|i: int|
                    0 <= i < changes@.len() && found((#[trigger] changes@[i]).key@) == Some(
                        Setting::RandomAlbumsLimit,
                    )
            },
        },
{
    let ghost kept = changes@.map_values(|c: Change| keep_stmt(c, now));
    let mut statements: Vec<Statement> = Vec::new();
    let mut reshuffle = false;
    let mut i: usize = 0;
    assert(statements_view(statements@) =~= kept.take(0));
    while i < changes.len()
        invariant
            i <= changes@.len(),
            kept == changes@.map_values(|c: Change| keep_stmt(c, now)),
            first_fault(changes@.take(i as int)) is None,
            statements_view(statements@) == kept.take(i as int),
            forall|k: int|
                0 <= k < i ==> parsed_json(json_text(kept_value(#[trigger] changes@[k]))) == Some(
                    kept_value(changes@[k]),
                ),
            reshuffle == exists|k: int|
                0 <= k < i && found((#[trigger] changes@[k]).key@) == Some(
                    Setting::RandomAlbumsLimit,
                ),
        decreases changes@.len() - i,
    {
        let change = &changes[i];
        assert(changes@.take(i + 1).drop_last() =~= changes@.take(i as int));
        proof {
            lemma_first_fault(changes@, i + 1);
        }
        let setting = match find_setting(change.key.as_str()) {
            Some(s) => s,
            None => {
                return Err(ConfigUpdateError::UnknownKey(text::owned(change.key.as_str())));
            },
        };
        let value = match setting.validate(&change.value) {
            Ok(v) => v,
            Err(reason) => {
                return Err(
                    ConfigUpdateError::Invalid { key: text::owned(change.key.as_str()), reason },
                );
            },
        };
        let raw = value.write();
        let ghost before = statements@;
        let statement = config_overrides::set_statement(change.key.as_str(), raw.as_str(), now);
        statements.push(statement);
        assert(statements_view(statements@) =~= statements_view(before).push(statement@));
        assert(kept.take(i + 1) =~= kept.take(i as int).push(kept[i as int]));
        assert(changes@[i as int] == *change);
        if setting == Setting::RandomAlbumsLimit {
            reshuffle = true;
            assert(found(changes@[i as int].key@) == Some(Setting::RandomAlbumsLimit));
        }
        i = i + 1;
    }
    assert(changes@.take(i as int) =~= changes@);
    assert(kept.take(i as int) =~= kept);
    Ok(UpdatePlan { statements, reshuffle })
}

proof fn lemma_first_fault(changes: Seq<Change>, k: int)
    requires
        0 <= k <= changes.len(),
    ensures
        first_fault(changes.take(k)) is Some ==> first_fault(changes) == first_fault(
            changes.take(k),
        ),
    decreases changes.len(),
{
    if k < changes.len() {
        lemma_first_fault(changes.drop_last(), k);
        assert(changes.drop_last().take(k) =~= changes.take(k));
    } else {
        assert(changes.take(k) =~= changes);
    }
}

/// A set of changes with one that is not in order is refused as a whole.
pub proof fn updates_are_all_or_nothing(changes: Seq<Change>, i: int)
    requires
        0 <= i < changes.len(),
        fault(changes[i]) is Some,
    ensures
        first_fault(changes) is Some,
{
    lemma_first_fault(changes, i + 1);
    assert(changes.take(i + 1).last() == changes[i]);
}

/// Drop a change, so that what the configuration file says is in effect again. The
/// result says whether there was a change; a key that no setting has is not found.
pub fn delete_config_key(key: &str, answers: &[Answer]) -> (r: Result<Step<bool>, HttpError>)
    ensures
        match r {
            Err(e) => found(key@) is None && e == HttpError::NotFound,
            Ok(step) => {
                &&& found(key@) is Some
                &&& step@ == crate::db::query::changed_once(
                    config_overrides::keyed_stmt(config_overrides::DELETE_SQL@, key@),
                    answers_view(answers@),
                    |a: AnswerView|
                        match crate::db::query::touched(a) {
                            Ok(n) => Ok(n > 0),
                            Err(e) => Err(e),
                        },
                )
            },
        },
{
    match find_setting(key) {
        None => Err(HttpError::NotFound),
        Some(_) => Ok(config_overrides::delete(key, answers)),
    }
}

/// A change that is accepted is written under its key, with the time, and is then the value
/// in effect: what is read back from what was written is what was accepted.
pub proof fn accepted_changes_are_in_effect(
    changes: &Vec<Change>,
    now: i64,
    plan: UpdatePlan,
    i: int,
    defaults: &DefaultsMap,
    key: &str,
    answers: &[Answer],
    r: Step<JsonValue>,
)
    requires
        call_ensures(post_config, (changes, now), Ok::<UpdatePlan, ConfigUpdateError>(plan)),
        0 <= i < changes@.len(),
        key@ == changes@[i].key@,
        call_ensures(effective_value, (defaults, key, answers), r),
        answers@.len() > 0 ==> rows_of(answers@[0]@) == Ok::<Seq<Seq<Cell>>, ErrorView>(
            seq![seq![plan.statements@[i]@.params[1]]],
        ),
    ensures
        plan.statements@.len() == changes@.len(),
        plan.statements@[i].sql@
            == "INSERT INTO config_overrides (key, value, updated_at) VALUES (?1, ?2, ?3) \
    ON CONFLICT(key) DO UPDATE SET value = excluded.value, updated_at = excluded.updated_at"@,
        plan.statements@[i]@.params.len() == 3,
        plan.statements@[i]@.params[0] == Cell::Text(key@),
        plan.statements@[i]@.params[2] == Cell::Integer(now),
        answers@.len() == 0 ==> (r matches Step::Query(q) && q@ == (StatementView {
            sql: "SELECT value FROM config_overrides WHERE key = ?1"@,
            params: seq![Cell::Text(key@)],
        })),
        answers@.len() > 0 ==> (r matches Step::Done(Ok(v)) && {
            &&& key@ != "browse.top_level"@ ==> v@ == changes@[i].value@
            &&& key@ == "browse.recently_added_limit"@ || key@
                == "browse.recently_added_max_age_days"@ || key@ == "browse.random_albums_limit"@
                ==> v@ is Null || (v@ matches JsonView::Number(n) && n >= 1)
            &&& key@ == "browse.quality_categories"@ ==> v@ is Bool
            &&& key@ == "browse.top_level"@ ==> v@ is List
        }),
{
    let c = changes@[i];
    let all = changes@.map_values(|c: Change| keep_stmt(c, now));
    assert(statements_view(plan.statements@) == all);
    assert(plan.statements@.len() == statements_view(plan.statements@).len());
    assert(statements_view(plan.statements@)[i] == plan.statements@[i]@);
    assert(all[i] == keep_stmt(c, now));
    assert(fault(c) is None) by {
        if fault(c) is Some {
            updates_are_all_or_nothing(changes@, i);
        }
    }
    let s = found(c.key@)->0;
    keys_are_distinct(s, key@);
    let text = json_text(kept_value(c));
    assert(parsed_json(text) == Some(kept_value(c)));
    let a = answers_view(answers@);
    assert(a.len() == answers@.len());
    if a.len() > 0 {
        assert(a[0] == answers@[0]@);
        assert(text_at(seq![Cell::Text(text)], 0) == Some(text));
    }
    lemma_keys();
}

proof fn lemma_keys()
    ensures
        "browse.recently_added_limit"@ != "browse.recently_added_max_age_days"@,
        "browse.recently_added_limit"@ != "browse.random_albums_limit"@,
        "browse.recently_added_limit"@ != "browse.quality_categories"@,
        "browse.recently_added_limit"@ != "browse.top_level"@,
        "browse.recently_added_max_age_days"@ != "browse.random_albums_limit"@,
        "browse.recently_added_max_age_days"@ != "browse.quality_categories"@,
        "browse.recently_added_max_age_days"@ != "browse.top_level"@,
        "browse.random_albums_limit"@ != "browse.quality_categories"@,
        "browse.random_albums_limit"@ != "browse.top_level"@,
        "browse.quality_categories"@ != "browse.top_level"@,
{
    reveal_strlit("browse.recently_added_limit");
    reveal_strlit("browse.recently_added_max_age_days");
    reveal_strlit("browse.random_albums_limit");
    reveal_strlit("browse.quality_categories");
    reveal_strlit("browse.top_level");
    assert("browse.recently_added_limit"@.len() == 27 && "browse.recently_added_max_age_days"@.len()
        == 34 && "browse.random_albums_limit"@.len() == 26 && "browse.quality_categories"@.len()
        == 25 && "browse.top_level"@.len() == 16);
}

} // verus!
