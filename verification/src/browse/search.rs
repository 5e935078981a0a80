//! Searching.
//!
//! What is searched depends on the class that is asked for: albums, artists or
//! tracks. A value is looked for as a part of names first. Where that finds nothing,
//! and the criteria are a single comparison with a value of some length, names that
//! share enough runs of three characters with the value are taken in its place, the
//! closest first: so a misspelt name is found, and a name that is spelt right brings
//! nothing else with it.

use vstd::prelude::*;
use vstd::slice::slice_subrange;

use crate::browse::artist_tracks::tracks_listed;
use crate::browse::criteria::{
    clause, like, like_pattern, next_place, place, rendered, walk, Clause, Target, WhereClause,
};
use crate::browse::listing::{listed, Named, Shape, ShapeView};
use crate::browse::tracks::{make_items, RowLayout};
use crate::browse::{
    counted, counted_step, nothing, only_containers, page_statement, page_stmt, BrowseContext,
    ChildrenResult, ChildrenView, Counted, DidlOutput, DidlView,
};
use crate::db::query::{
    answers_view, bound, cells, copy_error, get_integer, get_text, integer_at, rows_of, rows_view,
    scalar, scalar_of, text_at, text_param, Answer, AnswerView, Cell, Row, SqlValue, Statement,
    StatementView, Step, StepView,
};
use crate::db::udf::{distinct_trigrams, trigrams, Trigram};
use crate::error::{Error, ErrorView};
use crate::normalize::{for_search, search_form};
use crate::text::{self, decimal, joined, opt_str, opt_text, texts, trimmed};
use crate::upnp::didl::{containers_view, Container, ContainerView};
use crate::upnp::search::{ClassFilter, Predicate, Property, SearchExpr};

verus! {

/// What a search found, and how much there is in all.
#[derive(Debug)]
pub struct SearchResult {
    pub didl: DidlOutput,
    pub total_matches: usize,
}

impl View for SearchResult {
    type V = ChildrenView;

    open spec fn view(&self) -> ChildrenView {
        ChildrenView { didl: self.didl@, total_matches: self.total_matches }
    }
}

// ── Runs of three characters ─────────────────────────────────────────────

/// The fewest characters with which a misspelt name is looked for.
pub const FTS5_MIN_CHARS: usize = 3;

/// Whether names like the value are taken where none contains it.
pub open spec fn is_eligible(enabled: bool, norm: Seq<char>) -> bool {
    enabled && norm.len() >= FTS5_MIN_CHARS && trimmed(norm).len() > 0
}

pub fn fuzzy_eligible(ctx: &BrowseContext, normalized: &str) -> (r: bool)
    ensures
        r == is_eligible(ctx.settings.search_fuzzy_enabled, normalized@),
{
    let v = text::chars_of(normalized);
    ctx.settings.search_fuzzy_enabled && v.len() >= FTS5_MIN_CHARS && !text::trim(
        normalized,
    ).is_empty()
}

/// A character between quotes.
pub open spec fn escaped(c: char) -> Seq<char> {
    if c == '"' {
        seq!['"', '"']
    } else {
        seq![c]
    }
}

/// Three characters between quotes.
pub open spec fn quoted(t: Trigram) -> Seq<char> {
    seq!['"'] + escaped(t.0) + escaped(t.1) + escaped(t.2) + seq!['"']
}

/// Any of the runs of three characters in a value.
pub open spec fn trigram_or(norm: Seq<char>) -> Seq<char> {
    joined(distinct_trigrams(norm).map_values(|t: Trigram| quoted(t)), " OR "@)
}

/// Any of the runs of three characters in a value, in the given column.
pub open spec fn column_trigrams(column: Seq<char>, norm: Seq<char>) -> Seq<char> {
    if trigram_or(norm).len() == 0 {
        Seq::empty()
    } else {
        "{"@ + column + "}: ("@ + trigram_or(norm) + ")"@
    }
}

fn push_escaped(out: &mut String, c: char)
    ensures
        final(out)@ == old(out)@ + escaped(c),
{
    let ghost before = out@;
    if c == '"' {
        out.push('"');
    }
    out.push(c);
    assert(out@ =~= before + escaped(c));
}

fn quote(t: Trigram) -> (r: String)
    ensures
        r@ == quoted(t),
{
    let mut out = String::new();
    out.push('"');
    assert(out@ =~= seq!['"']);
    push_escaped(&mut out, t.0);
    push_escaped(&mut out, t.1);
    push_escaped(&mut out, t.2);
    out.push('"');
    assert(out@ =~= quoted(t));
    out
}

/// A full-text query for any of the runs of three characters in a value.
pub fn fts5_trigram_or(normalized: &str) -> (r: String)
    ensures
        r@ == trigram_or(normalized@),
{
    let runs = trigrams(normalized);
    let ghost all = runs@.map_values(|t: Trigram| quoted(t));
    let mut parts: Vec<String> = Vec::new();
    let mut i: usize = 0;
    assert(texts(parts@) =~= all.take(0));
    while i < runs.len()
        invariant
            i <= runs@.len(),
            all == runs@.map_values(|t: Trigram| quoted(t)),
            texts(parts@) == all.take(i as int),
        decreases runs@.len() - i,
    {
        let ghost before = parts@;
        let part = quote(runs[i]);
        parts.push(part);
        proof {
            text::lemma_texts_push(before, part);
        }
        assert(all.take(i + 1) =~= all.take(i as int).push(all[i as int]));
        i = i + 1;
    }
    assert(all.take(i as int) =~= all);
    text::join(&parts, " OR ")
}

/// The same for one column, so that what stands in another does not count.
pub fn fts5_col_trigram_query(column: &str, normalized: &str) -> (r: String)
    ensures
        r@ == column_trigrams(column@, normalized@),
{
    let inner = fts5_trigram_or(normalized);
    if inner.as_str().is_empty() {
        let none = String::new();
        assert(none@ =~= Seq::empty());
        return none;
    }
    let head = text::cat3("{", column, "}: (");
    text::cat3(head.as_str(), inner.as_str(), ")")
}

// ── Shapes of criteria ───────────────────────────────────────────────────

/// The value of a single comparison with a title.
pub open spec fn title_value(p: Predicate) -> Option<Seq<char>> {
    match p {
        Predicate::Contains { prop, value, role } => if prop == Property::Title {
            Some(value@)
        } else {
            None
        },
        _ => None,
    }
}

fn single_title(p: &Predicate) -> (r: Option<&str>)
    ensures
        opt_str(r) == title_value(*p),
{
    match p {
        Predicate::Contains { prop, value, role } => match prop {
            Property::Title => Some(value.as_str()),
            _ => None,
        },
        _ => None,
    }
}

/// The value of a single comparison with a title or an artist, with or without a role.
pub open spec fn name_value(p: Predicate, with_role: bool) -> Option<Seq<char>> {
    match p {
        Predicate::Contains { prop, value, role } => if (prop == Property::Title || prop
            == Property::Artist) && role is Some == with_role {
            Some(value@)
        } else {
            None
        },
        _ => None,
    }
}

fn single_name(p: &Predicate, with_role: bool) -> (r: Option<&str>)
    ensures
        opt_str(r) == name_value(*p, with_role),
{
    match p {
        Predicate::Contains { prop, value, role } => if (*prop == Property::Title || *prop
            == Property::Artist) && role.is_some() == with_role {
            Some(value.as_str())
        } else {
            None
        },
        _ => None,
    }
}

pub fn single_contains_title_or_artist(p: &Predicate) -> (r: Option<&str>)
    ensures
        opt_str(r) == name_value(*p, false),
{
    single_name(p, false)
}

pub fn single_contains_value_for_classical(p: &Predicate) -> (r: Option<&str>)
    ensures
        opt_str(r) == name_value(*p, true),
{
    single_name(p, true)
}

/// The column of tracks that a single comparison is about, and its value. One about
/// albums is left to the criteria in general.
pub open spec fn track_column(p: Predicate) -> Option<(Seq<char>, Seq<char>)> {
    match p {
        Predicate::Contains { prop, value, role } => match prop {
            Property::Title => Some(("title_norm"@, value@)),
            Property::Artist => Some(
                (
                    if opt_text(role) == Some("Composer"@) {
                        "composer_norm"@
                    } else if opt_text(role) == Some("Conductor"@) {
                        "conductor_norm"@
                    } else if opt_text(role) == Some("Performer"@) {
                        "performer_norm"@
                    } else {
                        "artist_norm"@
                    },
                    value@,
                ),
            ),
            Property::Genre => Some(("genre_norm"@, value@)),
            Property::Album => None,
        },
        _ => None,
    }
}

fn same_role(role: &Option<String>, name: &str) -> (r: bool)
    ensures
        r == (opt_text(*role) == Some(name@)),
{
    match role {
        Some(s) => text::same(s.as_str(), name),
        None => false,
    }
}

pub fn single_track_fuzzy_target<'a>(p: &'a Predicate) -> (r: Option<(&'static str, &'a str)>)
    ensures
        match r {
            Some(t) => track_column(*p) == Some((t.0@, t.1@)),
            None => track_column(*p) is None,
        },
{
    match p {
        Predicate::Contains { prop, value, role } => match prop {
            Property::Title => Some(("title_norm", value.as_str())),
            Property::Artist => if same_role(role, "Composer") {
                Some(("composer_norm", value.as_str()))
            } else if same_role(role, "Conductor") {
                Some(("conductor_norm", value.as_str()))
            } else if same_role(role, "Performer") {
                Some(("performer_norm", value.as_str()))
            } else {
                Some(("artist_norm", value.as_str()))
            },
            Property::Genre => Some(("genre_norm", value.as_str())),
            Property::Album => None,
        },
        _ => None,
    }
}

/// The first role that is stated anywhere in the criteria.
pub open spec fn stated_role(p: Predicate) -> Option<Seq<char>>
    decreases p,
{
    match p {
        Predicate::Contains { prop, value, role } => match role {
            Some(s) => if s@.len() > 0 {
                Some(s@)
            } else {
                None
            },
            None => None,
        },
        Predicate::And(children) => stated_role_in(children@),
        Predicate::Or(children) => stated_role_in(children@),
        _ => None,
    }
}

pub open spec fn stated_role_in(children: Seq<Predicate>) -> Option<Seq<char>>
    decreases children,
{
    if children.len() == 0 {
        None
    } else {
        match stated_role_in(children.subrange(0, children.len() - 1)) {
            Some(role) => Some(role),
            None => stated_role(children[children.len() - 1]),
        }
    }
}

pub fn first_role(p: &Predicate) -> (r: Option<&str>)
    ensures
        opt_str(r) == stated_role(*p),
    decreases p,
{
    match p {
        Predicate::Contains { prop, value, role } => match role {
            Some(s) => if s.as_str().is_empty() {
                None
            } else {
                Some(s.as_str())
            },
            None => None,
        },
        Predicate::And(children) => first_role_in(children),
        Predicate::Or(children) => first_role_in(children),
        _ => None,
    }
}

fn first_role_in(children: &Vec<Predicate>) -> (r: Option<&str>)
    ensures
        opt_str(r) == stated_role_in(children@),
    decreases children@,
{
    let mut i: usize = 0;
    while i < children.len()
        invariant
            i <= children@.len(),
            stated_role_in(children@.subrange(0, i as int)) is None,
        decreases children@.len() - i,
    {
        let found = first_role(&children[i]);
        proof {
            let now = children@.subrange(0, i + 1);
            assert(now.subrange(0, now.len() - 1) =~= children@.subrange(0, i as int));
            assert(now[now.len() - 1] == children@[i as int]);
        }
        if found.is_some() {
            proof {
                lemma_first_role_stays(children@, i + 1);
            }
            return found;
        }
        i = i + 1;
    }
    assert(children@.subrange(0, i as int) =~= children@);
    None
}

proof fn lemma_first_role_stays(children: Seq<Predicate>, n: int)
    requires
        0 <= n <= children.len(),
        stated_role_in(children.subrange(0, n)) is Some,
    ensures
        stated_role_in(children) == stated_role_in(children.subrange(0, n)),
    decreases children.len(),
{
    if n < children.len() {
        let front = children.subrange(0, children.len() - 1);
        assert(front.subrange(0, n) =~= children.subrange(0, n));
        lemma_first_role_stays(front, n);
    } else {
        assert(children.subrange(0, n) =~= children);
    }
}

/// Who has the role, where it is a known one.
pub open spec fn role_named(role: Seq<char>) -> Option<Named> {
    if role == "Composer"@ {
        Some(Named::Composer)
    } else if role == "Conductor"@ {
        Some(Named::Conductor)
    } else if role == "Performer"@ {
        Some(Named::Performer)
    } else {
        None
    }
}

pub fn role_to_column(role: &str) -> (r: Option<Named>)
    ensures
        r == role_named(role@),
{
    if text::same(role, "Composer") {
        Some(Named::Composer)
    } else if text::same(role, "Conductor") {
        Some(Named::Conductor)
    } else if text::same(role, "Performer") {
        Some(Named::Performer)
    } else {
        None
    }
}

// ── Results ──────────────────────────────────────────────────────────────

/// What the rows of a search become.
#[derive(Debug, Clone, Copy, PartialEq, Eq, Structural)]
pub enum Found {
    Albums,
    /// Names, each with whether it is that of an album artist.
    Artists,
    People(Named),
    Tracks,
}

/// An artist: an album artist, where the name is one's.
pub open spec fn artist_at(row: Seq<Cell>) -> Option<ContainerView> {
    match (text_at(row, 0), integer_at(row, 1)) {
        (Some(name), Some(is_album_artist)) => Some(
            if is_album_artist == 1 {
                Named::AlbumArtist.container(name)
            } else {
                Named::Artist.container(name)
            },
        ),
        _ => None,
    }
}

/// What the rows of a search become.
pub open spec fn emitted(art_base: Seq<char>, stream_base: Seq<char>, found: Found) -> spec_fn(
    Seq<Seq<Cell>>,
) -> DidlView {
    match found {
        Found::Albums => listed(ShapeView::Albums { parent: "cat:al"@ }, art_base),
        Found::Artists => |rows: Seq<Seq<Cell>>|
            only_containers(rows.filter_map(|row: Seq<Cell>| artist_at(row))),
        Found::People(named) => listed(ShapeView::Names(named), art_base),
        Found::Tracks => tracks_listed(art_base, stream_base, RowLayout::Told),
    }
}

fn make_artists(rows: &Vec<Row>) -> (r: Vec<Container>)
    ensures
        containers_view(r@) == rows_view(rows@).filter_map(|row: Seq<Cell>| artist_at(row)),
{
    let ghost f = |row: Seq<Cell>| artist_at(row);
    let ghost all = rows_view(rows@);
    let mut out: Vec<Container> = Vec::new();
    let mut i: usize = 0;
    proof {
        reveal(Seq::filter_map);
    }
    assert(containers_view(out@) =~= all.take(0).filter_map(f));
    while i < rows.len()
        invariant
            i <= rows.len(),
            all == rows_view(rows@),
            f == (|row: Seq<Cell>| artist_at(row)),
            containers_view(out@) == all.take(i as int).filter_map(f),
        decreases rows.len() - i,
    {
        broadcast use Seq::lemma_filter_map_take_succ;

        let ghost before = out@;
        assert(all[i as int] == cells(rows@[i as int]@));
        match (get_text(&rows[i], 0), get_integer(&rows[i], 1)) {
            (Some(name), Some(is_album_artist)) => {
                let named = if is_album_artist == 1 { Named::AlbumArtist } else { Named::Artist };
                let c = named.container_of(name.as_str());
                out.push(c);
                assert(containers_view(out@) =~= containers_view(before).push(c@));
            },
            _ => {},
        }
        i = i + 1;
        assert(containers_view(out@) =~= all.take(i as int).filter_map(f));
    }
    assert(all.take(i as int) =~= all);
    out
}

fn emit(ctx: &BrowseContext, found: Found, rows: &Vec<Row>) -> (r: DidlOutput)
    ensures
        r@ == emitted(ctx.art_base_url@, ctx.stream_base_url@, found)(rows_view(rows@)),
{
    match found {
        Found::Albums => {
            let shape = Shape::Albums { parent: "cat:al" };
            DidlOutput::of_containers(shape.make_all(ctx, rows))
        },
        Found::Artists => DidlOutput::of_containers(make_artists(rows)),
        Found::People(named) => {
            let shape = Shape::Names(named);
            DidlOutput::of_containers(shape.make_all(ctx, rows))
        },
        Found::Tracks => DidlOutput::of_items(make_items(ctx, RowLayout::Told, rows)),
    }
}

// ── Stages ───────────────────────────────────────────────────────────────

/// One way of looking: a question for the number of results, where it is not known
/// yet, and one for a page of them.
pub struct StageView {
    pub recount: Option<StatementView>,
    pub list: StatementView,
}

/// One way of looking.
#[derive(Debug)]
pub struct Stage {
    pub recount: Option<Statement>,
    pub list: Statement,
}

impl View for Stage {
    type V = StageView;

    open spec fn view(&self) -> StageView {
        StageView {
            recount: match self.recount {
                Some(s) => Some(s@),
                None => None,
            },
            list: self.list@,
        }
    }
}

/// Ask the questions of a stage.
pub open spec fn stage_step(
    stage: StageView,
    known: i64,
    make: spec_fn(Seq<Seq<Cell>>) -> DidlView,
    answers: Seq<AnswerView>,
) -> StepView<ChildrenView> {
    match stage.recount {
        Some(count) => counted_step(count, stage.list, make, answers),
        None => if answers.len() == 0 {
            StepView::Query(stage.list)
        } else {
            match rows_of(answers[0]) {
                Err(e) => StepView::Done(Err(e)),
                Ok(rows) => StepView::Done(
                    Ok(ChildrenView { didl: make(rows), total_matches: known as usize }),
                ),
            }
        },
    }
}

/// Count what contains the value. Where there is something, or nothing else may be
/// taken, list it; else look for what is like the value.
pub open spec fn two_stage_step(
    first: StatementView,
    eligible: bool,
    exact: StageView,
    fuzzy: StageView,
    make: spec_fn(Seq<Seq<Cell>>) -> DidlView,
    answers: Seq<AnswerView>,
) -> StepView<ChildrenView> {
    if answers.len() == 0 {
        StepView::Query(first)
    } else {
        match scalar_of(answers[0]) {
            Err(e) => StepView::Done(Err(e)),
            Ok(n) => if n > 0 || !eligible {
                stage_step(exact, n, make, answers.skip(1))
            } else {
                stage_step(fuzzy, n, make, answers.skip(1))
            },
        }
    }
}

fn run_stage(ctx: &BrowseContext, stage: Stage, known: i64, found: Found, answers: &[Answer]) -> (r:
    Step<ChildrenResult>)
    ensures
        r@ == stage_step(
            stage@,
            known,
            emitted(ctx.art_base_url@, ctx.stream_base_url@, found),
            answers_view(answers@),
        ),
{
    let ghost make = emitted(ctx.art_base_url@, ctx.stream_base_url@, found);
    match stage.recount {
        Some(count) => run_counted(ctx, count, stage.list, found, answers),
        None => {
            if answers.len() == 0 {
                return Step::Query(stage.list);
            }
            match &answers[0] {
                Answer::Failed(e) => Step::Done(Err(Error::Sqlite(copy_error(e)))),
                Answer::Rows(rows, _) => Step::Done(
                    Ok(
                        ChildrenResult {
                            didl: emit(ctx, found, rows),
                            total_matches: known as usize,
                        },
                    ),
                ),
            }
        },
    }
}

fn run_counted(
    ctx: &BrowseContext,
    count: Statement,
    list: Statement,
    found: Found,
    answers: &[Answer],
) -> (r: Step<ChildrenResult>)
    ensures
        r@ == counted_step(
            count@,
            list@,
            emitted(ctx.art_base_url@, ctx.stream_base_url@, found),
            answers_view(answers@),
        ),
{
    let ghost make = emitted(ctx.art_base_url@, ctx.stream_base_url@, found);
    match counted(count, list, answers) {
        Counted::Pending(step) => step,
        Counted::Known(total_matches, rows) => {
            let didl = emit(ctx, found, rows);
            assert(didl@ == make(rows_view(rows@)));
            Step::Done(Ok(ChildrenResult { didl, total_matches }))
        },
    }
}

fn run_two_stages(
    ctx: &BrowseContext,
    first: Statement,
    eligible: bool,
    exact: Stage,
    fuzzy: Stage,
    found: Found,
    answers: &[Answer],
) -> (r: Step<ChildrenResult>)
    ensures
        r@ == two_stage_step(
            first@,
            eligible,
            exact@,
            fuzzy@,
            emitted(ctx.art_base_url@, ctx.stream_base_url@, found),
            answers_view(answers@),
        ),
{
    if answers.len() == 0 {
        return Step::Query(first);
    }
    let n: i64 = match scalar(&answers[0]) {
        Err(e) => return Step::Done(Err(e)),
        Ok(n) => n,
    };
    let rest = slice_subrange(answers, 1, answers.len());
    assert(answers_view(rest@) =~= answers_view(answers@).skip(1));
    if n > 0 || !eligible {
        run_stage(ctx, exact, n, found, rest)
    } else {
        run_stage(ctx, fuzzy, n, found, rest)
    }
}

// ── Parameters and pages ─────────────────────────────────────────────────

fn one_text(s: &str) -> (r: Vec<SqlValue>)
    ensures
        cells(r@) == seq![Cell::Text(s@)],
{
    let r = vec![text_param(s)];
    assert(cells(r@) =~= seq![Cell::Text(s@)]);
    r
}

fn two_texts(a: &str, b: &str) -> (r: Vec<SqlValue>)
    ensures
        cells(r@) == seq![Cell::Text(a@), Cell::Text(b@)],
{
    let r = vec![text_param(a), text_param(b)];
    assert(cells(r@) =~= seq![Cell::Text(a@), Cell::Text(b@)]);
    r
}

fn three_texts(a: &str, b: &str, c: &str) -> (r: Vec<SqlValue>)
    ensures
        cells(r@) == seq![Cell::Text(a@), Cell::Text(b@), Cell::Text(c@)],
{
    let r = vec![text_param(a), text_param(b), text_param(c)];
    assert(cells(r@) =~= seq![Cell::Text(a@), Cell::Text(b@), Cell::Text(c@)]);
    r
}

fn copy_params(v: &Vec<SqlValue>) -> (r: Vec<SqlValue>)
    ensures
        cells(r@) == cells(v@),
{
    let mut out: Vec<SqlValue> = Vec::new();
    let mut i: usize = 0;
    while i < v.len()
        invariant
            i <= v@.len(),
            cells(out@) =~= cells(v@).take(i as int),
        decreases v@.len() - i,
    {
        let ghost before = out@;
        let value = match &v[i] {
            SqlValue::Null => SqlValue::Null,
            SqlValue::Integer(n) => SqlValue::Integer(*n),
            SqlValue::Text(s) => SqlValue::Text(text::owned(s.as_str())),
            SqlValue::Real => SqlValue::Real,
            SqlValue::Blob => SqlValue::Blob,
            SqlValue::Garbled(s) => SqlValue::Garbled(text::owned(s.as_str())),
        };
        out.push(value);
        assert(cells(out@) =~= cells(before).push(value@));
        assert(cells(v@)[i as int] == v@[i as int]@);
        i = i + 1;
    }
    assert(cells(v@).take(i as int) =~= cells(v@));
    out
}

/// The words for a page behind `n` parameters.
pub open spec fn paging(n: nat) -> Seq<char> {
    " LIMIT ?"@ + decimal(place(n + 1)) + " OFFSET ?"@ + decimal(place(place(n + 1) + 1))
}

fn paging_text(n: usize) -> (r: String)
    ensures
        r@ == paging(n as nat),
{
    let limit: u64 = next_place(n as u64);
    let offset: u64 = next_place(limit);
    let head = text::cat3(" LIMIT ?", text::number_text(limit).as_str(), " OFFSET ?");
    text::cat(head.as_str(), text::number_text(offset).as_str())
}

fn one_stmt(sql: &str, a: &str) -> (r: Statement)
    ensures
        r@ == (StatementView { sql: sql@, params: seq![Cell::Text(a@)] }),
{
    bound(sql, one_text(a))
}

// ── Albums ───────────────────────────────────────────────────────────────

pub const ALBUMS_LIKE_COUNT_SQL: &'static str = "SELECT COUNT(*) FROM albums WHERE \
    album_norm LIKE ?1 \
    OR effective_album_artist_norm LIKE ?1 \
    OR EXISTS (SELECT 1 FROM tracks WHERE album_id = albums.id AND artist_norm LIKE ?1)";

/// An album with that very name first, then the albums of an artist so named, then
/// those with the value in their name, then those with a track by such an artist.
pub const ALBUMS_LIKE_SQL: &'static str =
    "SELECT id, album, effective_album_artist, track_count FROM albums \
    WHERE album_norm LIKE ?1 \
    OR effective_album_artist_norm LIKE ?1 \
    OR EXISTS (SELECT 1 FROM tracks WHERE album_id = albums.id AND artist_norm LIKE ?1) \
    ORDER BY CASE \
    WHEN album_norm = ?2 THEN 0 \
    WHEN effective_album_artist_norm LIKE ?1 THEN 1 \
    WHEN album_norm LIKE ?1 THEN 2 \
    ELSE 3 END, \
    album_norm \
    LIMIT ?3 OFFSET ?4";

pub const ALBUMS_FUZZY_COUNT_SQL: &'static str = "SELECT COUNT(*) FROM albums WHERE \
    albums.id IN (SELECT rowid FROM albums_fts WHERE albums_fts MATCH ?1) \
    AND MAX(jaccard_trigram(album_norm, ?2), \
    jaccard_trigram(effective_album_artist_norm, ?2)) >= 0.2";

pub const ALBUMS_FUZZY_SQL: &'static str =
    "SELECT id, album, effective_album_artist, track_count FROM albums WHERE \
    albums.id IN (SELECT rowid FROM albums_fts WHERE albums_fts MATCH ?1) \
    AND MAX(jaccard_trigram(album_norm, ?2), \
    jaccard_trigram(effective_album_artist_norm, ?2)) >= 0.2 \
    ORDER BY MAX(jaccard_trigram(album_norm, ?2), \
    jaccard_trigram(effective_album_artist_norm, ?2)) DESC, \
    album_norm \
    LIMIT ?3 OFFSET ?4";

/// The albums that a value means: by name, by artist, or by the artist of a track.
pub open spec fn albums_ranked_step(
    fuzzy: bool,
    value: Seq<char>,
    start: usize,
    count: usize,
    make: spec_fn(Seq<Seq<Cell>>) -> DidlView,
    answers: Seq<AnswerView>,
) -> StepView<ChildrenView> {
    let norm = search_form(value);
    let by_name = seq![Cell::Text(like(norm)), Cell::Text(norm)];
    let by_runs = seq![Cell::Text(trigram_or(norm)), Cell::Text(norm)];
    two_stage_step(
        StatementView { sql: ALBUMS_LIKE_COUNT_SQL@, params: seq![Cell::Text(like(norm))] },
        is_eligible(fuzzy, norm),
        StageView { recount: None, list: page_stmt(ALBUMS_LIKE_SQL@, by_name, start, count) },
        StageView {
            recount: Some(StatementView { sql: ALBUMS_FUZZY_COUNT_SQL@, params: by_runs }),
            list: page_stmt(ALBUMS_FUZZY_SQL@, by_runs, start, count),
        },
        make,
        answers,
    )
}

pub fn search_albums_ranked(
    ctx: &BrowseContext,
    value: &str,
    start: usize,
    count: usize,
    answers: &[Answer],
) -> (r: Step<ChildrenResult>)
    ensures
        r@ == albums_ranked_step(
            ctx.settings.search_fuzzy_enabled,
            value@,
            start,
            count,
            emitted(ctx.art_base_url@, ctx.stream_base_url@, Found::Albums),
            answers_view(answers@),
        ),
{
    let norm = for_search(value);
    let part = like_pattern(norm.as_str());
    let phrase = fts5_trigram_or(norm.as_str());
    let by_name = page_statement(
        ALBUMS_LIKE_SQL,
        two_texts(part.as_str(), norm.as_str()),
        start,
        count,
    );
    let by_runs = page_statement(
        ALBUMS_FUZZY_SQL,
        two_texts(phrase.as_str(), norm.as_str()),
        start,
        count,
    );
    run_two_stages(
        ctx,
        one_stmt(ALBUMS_LIKE_COUNT_SQL, part.as_str()),
        fuzzy_eligible(ctx, norm.as_str()),
        Stage { recount: None, list: by_name },
        Stage {
            recount: Some(
                bound(ALBUMS_FUZZY_COUNT_SQL, two_texts(phrase.as_str(), norm.as_str())),
            ),
            list: by_runs,
        },
        Found::Albums,
        answers,
    )
}

/// No object found.
pub open spec fn none_found() -> StepView<ChildrenView> {
    StepView::Done(Ok(ChildrenView { didl: nothing(), total_matches: 0 }))
}

fn empty() -> (r: Step<ChildrenResult>)
    ensures
        r@ == none_found(),
{
    Step::Done(Ok(ChildrenResult { didl: DidlOutput::empty(), total_matches: 0 }))
}

/// What the criteria in general find: count, then list, in the given order. Criteria
/// that mean nothing for what is searched find nothing.
pub open spec fn criteria_step(
    c: Clause,
    count_head: Seq<char>,
    list_head: Seq<char>,
    order: Seq<char>,
    start: usize,
    count: usize,
    make: spec_fn(Seq<Seq<Cell>>) -> DidlView,
    answers: Seq<AnswerView>,
) -> StepView<ChildrenView> {
    if c.params.len() == 0 {
        none_found()
    } else {
        counted_step(
            StatementView { sql: count_head + rendered(c.pieces), params: c.params },
            page_stmt(
                list_head + rendered(c.pieces) + (order + paging(c.params.len())),
                c.params,
                start,
                count,
            ),
            make,
            answers,
        )
    }
}

fn run_criteria(
    ctx: &BrowseContext,
    clause: WhereClause,
    Ghost(c): Ghost<Clause>,
    count_head: &str,
    list_head: &str,
    order: &str,
    start: usize,
    count: usize,
    found: Found,
    answers: &[Answer],
) -> (r: Step<ChildrenResult>)
    requires
        clause.is(c),
    ensures
        r@ == criteria_step(
            c,
            count_head@,
            list_head@,
            order@,
            start,
            count,
            emitted(ctx.art_base_url@, ctx.stream_base_url@, found),
            answers_view(answers@),
        ),
{
    assert(c.params.len() == clause.params@.len());
    if clause.is_empty() {
        return empty();
    }
    let page = paging_text(clause.params.len());
    let tail = text::cat(order, page.as_str());
    let list_sql = text::cat3(list_head, clause.sql.as_str(), tail.as_str());
    let list = page_statement(list_sql.as_str(), copy_params(&clause.params), start, count);
    let count_sql = text::cat(count_head, clause.sql.as_str());
    run_counted(ctx, bound(count_sql.as_str(), clause.params), list, found, answers)
}

pub const ALBUMS_COUNT_HEAD: &'static str = "SELECT COUNT(*) FROM albums WHERE ";

pub const ALBUMS_LIST_HEAD: &'static str =
    "SELECT id, album, effective_album_artist, track_count FROM albums WHERE ";

pub const ALBUMS_ORDER: &'static str = " ORDER BY album_norm";

/// The albums that criteria find.
pub open spec fn albums_step(
    fuzzy: bool,
    p: Predicate,
    start: usize,
    count: usize,
    make: spec_fn(Seq<Seq<Cell>>) -> DidlView,
    answers: Seq<AnswerView>,
) -> StepView<ChildrenView> {
    match title_value(p) {
        Some(value) => albums_ranked_step(fuzzy, value, start, count, make, answers),
        None => criteria_step(
            clause(p, Target::Albums, 0),
            ALBUMS_COUNT_HEAD@,
            ALBUMS_LIST_HEAD@,
            ALBUMS_ORDER@,
            start,
            count,
            make,
            answers,
        ),
    }
}

pub fn search_albums(
    ctx: &BrowseContext,
    predicate: &Predicate,
    start: usize,
    count: usize,
    answers: &[Answer],
) -> (r: Step<ChildrenResult>)
    ensures
        r@ == albums_step(
            ctx.settings.search_fuzzy_enabled,
            *predicate,
            start,
            count,
            emitted(ctx.art_base_url@, ctx.stream_base_url@, Found::Albums),
            answers_view(answers@),
        ),
{
    match single_title(predicate) {
        Some(value) => search_albums_ranked(ctx, value, start, count, answers),
        None => run_criteria(
            ctx,
            walk(predicate, Target::Albums, 0),
            Ghost(clause(*predicate, Target::Albums, 0)),
            ALBUMS_COUNT_HEAD,
            ALBUMS_LIST_HEAD,
            ALBUMS_ORDER,
            start,
            count,
            Found::Albums,
            answers,
        ),
    }
}

// ── Artists ──────────────────────────────────────────────────────────────

/// How many artists meet one condition as album artists or another as artists of
/// tracks.
pub open spec fn artists_count_sql(aa: Seq<char>, tr: Seq<char>) -> Seq<char> {
    "SELECT COUNT(*) FROM (SELECT effective_album_artist AS name FROM albums WHERE "@ + aa
        + " UNION SELECT artist AS name FROM tracks WHERE artist IS NOT NULL AND artist != '' AND "@
        + tr + ")"@
}

/// The artists that meet one condition as album artists or another as artists of
/// tracks, each once, with whether it is an album artist.
pub open spec fn artists_list_sql(
    score_aa: Seq<char>,
    aa: Seq<char>,
    score_tr: Seq<char>,
    tr: Seq<char>,
    order: Seq<char>,
    n: nat,
) -> Seq<char> {
    "SELECT name, MAX(is_aa) AS is_aa FROM (SELECT effective_album_artist AS name, effective_album_artist_norm AS name_norm, 1 AS is_aa"@
        + score_aa + " FROM albums WHERE "@ + aa
        + " UNION ALL SELECT artist AS name, artist_norm AS name_norm, 0 AS is_aa"@ + score_tr
        + " FROM tracks WHERE artist IS NOT NULL AND artist != '' AND "@ + tr
        + ") GROUP BY name ORDER BY "@ + order + "MIN(name_norm)"@ + paging(n)
}

fn artists_count_text(aa: &str, tr: &str) -> (r: String)
    ensures
        r@ == artists_count_sql(aa@, tr@),
{
    let head = text::cat3(
        "SELECT COUNT(*) FROM (SELECT effective_album_artist AS name FROM albums WHERE ",
        aa,
        " UNION SELECT artist AS name FROM tracks WHERE artist IS NOT NULL AND artist != '' AND ",
    );
    text::cat3(head.as_str(), tr, ")")
}

fn artists_list_text(
    score_aa: &str,
    aa: &str,
    score_tr: &str,
    tr: &str,
    order: &str,
    n: usize,
) -> (r: String)
    ensures
        r@ == artists_list_sql(score_aa@, aa@, score_tr@, tr@, order@, n as nat),
{
    let mut out = text::owned(
        "SELECT name, MAX(is_aa) AS is_aa FROM (SELECT effective_album_artist AS name, effective_album_artist_norm AS name_norm, 1 AS is_aa",
    );
    out.append(score_aa);
    out.append(" FROM albums WHERE ");
    out.append(aa);
    out.append(" UNION ALL SELECT artist AS name, artist_norm AS name_norm, 0 AS is_aa");
    out.append(score_tr);
    out.append(" FROM tracks WHERE artist IS NOT NULL AND artist != '' AND ");
    out.append(tr);
    out.append(") GROUP BY name ORDER BY ");
    out.append(order);
    out.append("MIN(name_norm)");
    let page = paging_text(n);
    out.append(page.as_str());
    out
}

pub const AA_LIKE: &'static str = "effective_album_artist_norm LIKE ?1";

pub const TR_LIKE: &'static str = "artist_norm LIKE ?1";

pub const AA_FUZZY: &'static str =
    "id IN (SELECT rowid FROM albums_fts WHERE albums_fts MATCH ?1) \
    AND jaccard_trigram(effective_album_artist_norm, ?3) >= 0.2";

pub const TR_FUZZY: &'static str =
    "id IN (SELECT rowid FROM tracks_fts WHERE tracks_fts MATCH ?2) \
    AND jaccard_trigram(artist_norm, ?3) >= 0.2";

pub const AA_SCORE: &'static str = ", jaccard_trigram(effective_album_artist_norm, ?3) AS score";

pub const TR_SCORE: &'static str = ", jaccard_trigram(artist_norm, ?3) AS score";

pub const SCORE_ORDER: &'static str = "MAX(score) DESC, ";

/// The artists that a value means.
pub open spec fn artists_value_step(
    fuzzy: bool,
    value: Seq<char>,
    start: usize,
    count: usize,
    make: spec_fn(Seq<Seq<Cell>>) -> DidlView,
    answers: Seq<AnswerView>,
) -> StepView<ChildrenView> {
    let norm = search_form(value);
    let by_name = seq![Cell::Text(like(norm))];
    let by_runs = seq![
        Cell::Text(column_trigrams("effective_album_artist_norm"@, norm)),
        Cell::Text(column_trigrams("artist_norm"@, norm)),
        Cell::Text(norm),
    ];
    two_stage_step(
        StatementView { sql: artists_count_sql(AA_LIKE@, TR_LIKE@), params: by_name },
        is_eligible(fuzzy, norm),
        StageView {
            recount: None,
            list: page_stmt(
                artists_list_sql(""@, AA_LIKE@, ""@, TR_LIKE@, ""@, 1),
                by_name,
                start,
                count,
            ),
        },
        StageView {
            recount: Some(
                StatementView { sql: artists_count_sql(AA_FUZZY@, TR_FUZZY@), params: by_runs },
            ),
            list: page_stmt(
                artists_list_sql(AA_SCORE@, AA_FUZZY@, TR_SCORE@, TR_FUZZY@, SCORE_ORDER@, 3),
                by_runs,
                start,
                count,
            ),
        },
        make,
        answers,
    )
}

pub fn search_artists_value(
    ctx: &BrowseContext,
    value: &str,
    start: usize,
    count: usize,
    answers: &[Answer],
) -> (r: Step<ChildrenResult>)
    ensures
        r@ == artists_value_step(
            ctx.settings.search_fuzzy_enabled,
            value@,
            start,
            count,
            emitted(ctx.art_base_url@, ctx.stream_base_url@, Found::Artists),
            answers_view(answers@),
        ),
{
    let norm = for_search(value);
    let part = like_pattern(norm.as_str());
    let aa = fts5_col_trigram_query("effective_album_artist_norm", norm.as_str());
    let tr = fts5_col_trigram_query("artist_norm", norm.as_str());
    let first = one_stmt(artists_count_text(AA_LIKE, TR_LIKE).as_str(), part.as_str());
    let by_name = page_statement(
        artists_list_text("", AA_LIKE, "", TR_LIKE, "", 1).as_str(),
        one_text(part.as_str()),
        start,
        count,
    );
    let again = bound(
        artists_count_text(AA_FUZZY, TR_FUZZY).as_str(),
        three_texts(aa.as_str(), tr.as_str(), norm.as_str()),
    );
    let by_runs = page_statement(
        artists_list_text(AA_SCORE, AA_FUZZY, TR_SCORE, TR_FUZZY, SCORE_ORDER, 3).as_str(),
        three_texts(aa.as_str(), tr.as_str(), norm.as_str()),
        start,
        count,
    );
    run_two_stages(
        ctx,
        first,
        fuzzy_eligible(ctx, norm.as_str()),
        Stage { recount: None, list: by_name },
        Stage { recount: Some(again), list: by_runs },
        Found::Artists,
        answers,
    )
}

/// The artists that criteria in general find.
pub open spec fn artists_criteria_step(
    p: Predicate,
    start: usize,
    count: usize,
    make: spec_fn(Seq<Seq<Cell>>) -> DidlView,
    answers: Seq<AnswerView>,
) -> StepView<ChildrenView> {
    let aa = clause(p, Target::AlbumArtists, 0);
    let tr = clause(p, Target::TrackArtists, aa.params.len());
    let params = aa.params + tr.params;
    if params.len() == 0 {
        none_found()
    } else {
        counted_step(
            StatementView {
                sql: artists_count_sql(rendered(aa.pieces), rendered(tr.pieces)),
                params,
            },
            page_stmt(
                artists_list_sql(
                    ""@,
                    rendered(aa.pieces),
                    ""@,
                    rendered(tr.pieces),
                    ""@,
                    params.len(),
                ),
                params,
                start,
                count,
            ),
            make,
            answers,
        )
    }
}

fn artists_by_criteria(
    ctx: &BrowseContext,
    predicate: &Predicate,
    start: usize,
    count: usize,
    answers: &[Answer],
) -> (r: Step<ChildrenResult>)
    ensures
        r@ == artists_criteria_step(
            *predicate,
            start,
            count,
            emitted(ctx.art_base_url@, ctx.stream_base_url@, Found::Artists),
            answers_view(answers@),
        ),
{
    let aa = walk(predicate, Target::AlbumArtists, 0);
    let ghost aa_clause = clause(*predicate, Target::AlbumArtists, 0);
    assert(aa_clause.params.len() == aa.params@.len());
    let tr = walk(predicate, Target::TrackArtists, aa.params.len() as u64);
    let ghost tr_clause = clause(*predicate, Target::TrackArtists, aa_clause.params.len());
    assert(tr_clause.params.len() == tr.params@.len());
    if aa.is_empty() && tr.is_empty() {
        return empty();
    }
    let params = both_params(&aa.params, &tr.params);
    assert(params@.len() == cells(params@).len());
    let count_sql = artists_count_text(aa.sql.as_str(), tr.sql.as_str());
    let list_sql = artists_list_text(
        "",
        aa.sql.as_str(),
        "",
        tr.sql.as_str(),
        "",
        params.len(),
    );
    let list = page_statement(list_sql.as_str(), copy_params(&params), start, count);
    run_counted(ctx, bound(count_sql.as_str(), params), list, Found::Artists, answers)
}

fn both_params(a: &Vec<SqlValue>, b: &Vec<SqlValue>) -> (r: Vec<SqlValue>)
    ensures
        cells(r@) == cells(a@) + cells(b@),
{
    let mut out = copy_params(a);
    let mut rest = copy_params(b);
    let ghost first = out@;
    let ghost second = rest@;
    out.append(&mut rest);
    assert(cells(out@) =~= cells(first) + cells(second));
    out
}

// ── People with a role ───────────────────────────────────────────────────

/// The column of a role.
pub open spec fn role_column(named: Named) -> Seq<char> {
    match named {
        Named::Conductor => "conductor"@,
        Named::Performer => "performer"@,
        _ => "composer"@,
    }
}

fn role_column_text(named: Named) -> (r: &'static str)
    ensures
        r@ == role_column(named),
{
    match named {
        Named::Conductor => "conductor",
        Named::Performer => "performer",
        _ => "composer",
    }
}

/// What a search for people with a role compares.
pub open spec fn role_target(named: Named) -> Target {
    match named {
        Named::Conductor => Target::Conductors,
        Named::Performer => Target::Performers,
        _ => Target::Composers,
    }
}

fn target_of_role(named: Named) -> (r: Target)
    ensures
        r == role_target(named),
{
    match named {
        Named::Conductor => Target::Conductors,
        Named::Performer => Target::Performers,
        _ => Target::Composers,
    }
}

/// How many people there are in a column under a condition.
pub open spec fn people_count_sql(col: Seq<char>, cond: Seq<char>) -> Seq<char> {
    "SELECT COUNT(*) FROM (SELECT DISTINCT "@ + col + " FROM tracks WHERE "@ + col
        + " IS NOT NULL AND "@ + col + " != '' AND "@ + cond + ")"@
}

/// The people in a column under a condition, each once.
pub open spec fn people_list_sql(
    col: Seq<char>,
    cond: Seq<char>,
    order: Seq<char>,
    n: nat,
) -> Seq<char> {
    "SELECT DISTINCT "@ + col + " FROM tracks WHERE "@ + col + " IS NOT NULL AND "@ + col
        + " != '' AND "@ + cond + " ORDER BY "@ + order + paging(n)
}

fn people_count_text(col: &str, cond: &str) -> (r: String)
    ensures
        r@ == people_count_sql(col@, cond@),
{
    let mut out = text::owned("SELECT COUNT(*) FROM (SELECT DISTINCT ");
    out.append(col);
    out.append(" FROM tracks WHERE ");
    out.append(col);
    out.append(" IS NOT NULL AND ");
    out.append(col);
    out.append(" != '' AND ");
    out.append(cond);
    out.append(")");
    out
}

fn people_list_text(col: &str, cond: &str, order: &str, n: usize) -> (r: String)
    ensures
        r@ == people_list_sql(col@, cond@, order@, n as nat),
{
    let mut out = text::owned("SELECT DISTINCT ");
    out.append(col);
    out.append(" FROM tracks WHERE ");
    out.append(col);
    out.append(" IS NOT NULL AND ");
    out.append(col);
    out.append(" != '' AND ");
    out.append(cond);
    out.append(" ORDER BY ");
    out.append(order);
    let page = paging_text(n);
    out.append(page.as_str());
    out
}

/// Names in a column that share enough runs of three characters with the value.
pub open spec fn fuzzy_condition(id: Seq<char>, col: Seq<char>) -> Seq<char> {
    id + " IN (SELECT rowid FROM tracks_fts WHERE tracks_fts MATCH ?1) AND jaccard_trigram("@ + col
        + ", ?2) >= 0.2"@
}

fn fuzzy_condition_text(id: &str, col: &str) -> (r: String)
    ensures
        r@ == fuzzy_condition(id@, col@),
{
    let head = text::cat3(
        id,
        " IN (SELECT rowid FROM tracks_fts WHERE tracks_fts MATCH ?1) AND jaccard_trigram(",
        col,
    );
    text::cat(head.as_str(), ", ?2) >= 0.2")
}

/// The closest first, then by the given column.
pub open spec fn closest_first(col: Seq<char>, by: Seq<char>) -> Seq<char> {
    "jaccard_trigram("@ + col + ", ?2) DESC, "@ + by
}

fn closest_first_text(col: &str, by: &str) -> (r: String)
    ensures
        r@ == closest_first(col@, by@),
{
    let head = text::cat3("jaccard_trigram(", col, ", ?2) DESC, ");
    text::cat(head.as_str(), by)
}

/// The value of a single comparison that people with a role are looked for by, where
/// names like it may be taken.
pub open spec fn role_value(p: Predicate) -> Seq<char> {
    match name_value(p, true) {
        Some(value) => search_form(value),
        None => Seq::empty(),
    }
}

/// The people with a role that criteria find.
pub open spec fn facet_step(
    fuzzy: bool,
    p: Predicate,
    named: Named,
    start: usize,
    count: usize,
    make: spec_fn(Seq<Seq<Cell>>) -> DidlView,
    answers: Seq<AnswerView>,
) -> StepView<ChildrenView> {
    let c = clause(p, role_target(named), 0);
    let col = role_column(named);
    let norm_col = col + "_norm"@;
    let norm = role_value(p);
    let by_runs = seq![Cell::Text(column_trigrams(norm_col, norm)), Cell::Text(norm)];
    let like_it = fuzzy_condition("id"@, norm_col);
    if c.params.len() == 0 {
        none_found()
    } else {
        two_stage_step(
            StatementView { sql: people_count_sql(col, rendered(c.pieces)), params: c.params },
            name_value(p, true) is Some && is_eligible(fuzzy, norm),
            StageView {
                recount: None,
                list: page_stmt(
                    people_list_sql(col, rendered(c.pieces), norm_col, c.params.len()),
                    c.params,
                    start,
                    count,
                ),
            },
            StageView {
                recount: Some(
                    StatementView { sql: people_count_sql(col, like_it), params: by_runs },
                ),
                list: page_stmt(
                    people_list_sql(col, like_it, closest_first(norm_col, norm_col), 2),
                    by_runs,
                    start,
                    count,
                ),
            },
            make,
            answers,
        )
    }
}

pub fn search_classical_facet(
    ctx: &BrowseContext,
    predicate: &Predicate,
    named: Named,
    start: usize,
    count: usize,
    answers: &[Answer],
) -> (r: Step<ChildrenResult>)
    ensures
        r@ == facet_step(
            ctx.settings.search_fuzzy_enabled,
            *predicate,
            named,
            start,
            count,
            emitted(ctx.art_base_url@, ctx.stream_base_url@, Found::People(named)),
            answers_view(answers@),
        ),
{
    let found = walk(predicate, target_of_role(named), 0);
    let ghost c = clause(*predicate, role_target(named), 0);
    assert(c.params.len() == found.params@.len());
    if found.is_empty() {
        return empty();
    }
    let col = role_column_text(named);
    let norm_col = text::cat(col, "_norm");
    let single = single_contains_value_for_classical(predicate);
    let norm = match single {
        Some(value) => for_search(value),
        None => String::new(),
    };
    assert(norm@ =~= role_value(*predicate));
    let eligible = single.is_some() && fuzzy_eligible(ctx, norm.as_str());
    let phrase = fts5_col_trigram_query(norm_col.as_str(), norm.as_str());
    let like_it = fuzzy_condition_text("id", norm_col.as_str());
    let order = closest_first_text(norm_col.as_str(), norm_col.as_str());
    let by_name = page_statement(
        people_list_text(
            col,
            found.sql.as_str(),
            norm_col.as_str(),
            found.params.len(),
        ).as_str(),
        copy_params(&found.params),
        start,
        count,
    );
    let again = bound(
        people_count_text(col, like_it.as_str()).as_str(),
        two_texts(phrase.as_str(), norm.as_str()),
    );
    let by_runs = page_statement(
        people_list_text(col, like_it.as_str(), order.as_str(), 2).as_str(),
        two_texts(phrase.as_str(), norm.as_str()),
        start,
        count,
    );
    let first = bound(people_count_text(col, found.sql.as_str()).as_str(), found.params);
    run_two_stages(
        ctx,
        first,
        eligible,
        Stage { recount: None, list: by_name },
        Stage { recount: Some(again), list: by_runs },
        Found::People(named),
        answers,
    )
}

/// Who has the role that the criteria state first, where it is a known one.
pub open spec fn asked_role(p: Predicate) -> Option<Named> {
    match stated_role(p) {
        Some(role) => role_named(role),
        None => None,
    }
}

/// What the rows of a search for artists become.
pub open spec fn artists_found(p: Predicate) -> Found {
    match asked_role(p) {
        Some(named) => Found::People(named),
        None => Found::Artists,
    }
}

/// The artists that criteria find: those with a role, where one is stated.
pub open spec fn artists_step(
    fuzzy: bool,
    p: Predicate,
    start: usize,
    count: usize,
    make: spec_fn(Seq<Seq<Cell>>) -> DidlView,
    answers: Seq<AnswerView>,
) -> StepView<ChildrenView> {
    match asked_role(p) {
        Some(named) => facet_step(fuzzy, p, named, start, count, make, answers),
        None => match name_value(p, false) {
            Some(value) => artists_value_step(fuzzy, value, start, count, make, answers),
            None => artists_criteria_step(p, start, count, make, answers),
        },
    }
}

pub fn search_artists(
    ctx: &BrowseContext,
    predicate: &Predicate,
    start: usize,
    count: usize,
    answers: &[Answer],
) -> (r: Step<ChildrenResult>)
    ensures
        r@ == artists_step(
            ctx.settings.search_fuzzy_enabled,
            *predicate,
            start,
            count,
            emitted(ctx.art_base_url@, ctx.stream_base_url@, artists_found(*predicate)),
            answers_view(answers@),
        ),
{
    if let Some(role) = first_role(predicate) {
        if let Some(named) = role_to_column(role) {
            return search_classical_facet(ctx, predicate, named, start, count, answers);
        }
    }
    match single_contains_title_or_artist(predicate) {
        Some(value) => search_artists_value(ctx, value, start, count, answers),
        None => artists_by_criteria(ctx, predicate, start, count, answers),
    }
}

// ── Tracks ───────────────────────────────────────────────────────────────

pub const TRACKS_COUNT_HEAD: &'static str =
    "SELECT COUNT(*) FROM tracks t JOIN albums a ON t.album_id = a.id WHERE ";

pub const TRACKS_LIST_HEAD: &'static str =
    "SELECT t.id, t.album_id, t.title, t.artist, t.genre, t.track_num, t.disc_num, \
    t.duration_ms, t.sample_rate, t.bit_depth, t.channels, \
    t.bitrate, t.mime_type, t.file_size, a.album, \
    (SELECT IFNULL(MAX(disc_num), 0) FROM tracks WHERE album_id = t.album_id) > 1, \
    t.composer, t.conductor, t.performer \
    FROM tracks t JOIN albums a ON t.album_id = a.id WHERE ";

pub const TRACKS_ORDER: &'static str = " ORDER BY t.title_norm";

/// Tracks in the given order under a condition with `n` parameters.
pub open spec fn tracks_list_sql(cond: Seq<char>, order: Seq<char>, n: nat) -> Seq<char> {
    TRACKS_LIST_HEAD@ + cond + " ORDER BY "@ + order + paging(n)
}

fn tracks_list_text(cond: &str, order: &str, n: usize) -> (r: String)
    ensures
        r@ == tracks_list_sql(cond@, order@, n as nat),
{
    let mut out = text::owned(TRACKS_LIST_HEAD);
    out.append(cond);
    out.append(" ORDER BY ");
    out.append(order);
    let page = paging_text(n);
    out.append(page.as_str());
    out
}

/// The tracks with a value in a column.
pub open spec fn track_value_step(
    fuzzy: bool,
    column: Seq<char>,
    value: Seq<char>,
    start: usize,
    count: usize,
    make: spec_fn(Seq<Seq<Cell>>) -> DidlView,
    answers: Seq<AnswerView>,
) -> StepView<ChildrenView> {
    let norm = search_form(value);
    let col = "t."@ + column;
    let has_it = col + " LIKE ?1"@;
    let like_it = fuzzy_condition("t.id"@, col);
    let by_name = seq![Cell::Text(like(norm))];
    let by_runs = seq![Cell::Text(column_trigrams(column, norm)), Cell::Text(norm)];
    let first = StatementView { sql: TRACKS_COUNT_HEAD@ + has_it, params: by_name };
    two_stage_step(
        first,
        is_eligible(fuzzy, norm),
        StageView {
            recount: Some(first),
            list: page_stmt(
                tracks_list_sql(has_it, "t.title_norm"@, 1),
                by_name,
                start,
                count,
            ),
        },
        StageView {
            recount: Some(StatementView { sql: TRACKS_COUNT_HEAD@ + like_it, params: by_runs }),
            list: page_stmt(
                tracks_list_sql(like_it, closest_first(col, "t.title_norm"@), 2),
                by_runs,
                start,
                count,
            ),
        },
        make,
        answers,
    )
}

pub fn search_track_value(
    ctx: &BrowseContext,
    column: &str,
    value: &str,
    start: usize,
    count: usize,
    answers: &[Answer],
) -> (r: Step<ChildrenResult>)
    ensures
        r@ == track_value_step(
            ctx.settings.search_fuzzy_enabled,
            column@,
            value@,
            start,
            count,
            emitted(ctx.art_base_url@, ctx.stream_base_url@, Found::Tracks),
            answers_view(answers@),
        ),
{
    let norm = for_search(value);
    let part = like_pattern(norm.as_str());
    let phrase = fts5_col_trigram_query(column, norm.as_str());
    let col = text::cat("t.", column);
    let has_it = text::cat(col.as_str(), " LIKE ?1");
    let like_it = fuzzy_condition_text("t.id", col.as_str());
    let order = closest_first_text(col.as_str(), "t.title_norm");
    let count_sql = text::cat(TRACKS_COUNT_HEAD, has_it.as_str());
    let by_name = page_statement(
        tracks_list_text(has_it.as_str(), "t.title_norm", 1).as_str(),
        one_text(part.as_str()),
        start,
        count,
    );
    let again = bound(
        text::cat(TRACKS_COUNT_HEAD, like_it.as_str()).as_str(),
        two_texts(phrase.as_str(), norm.as_str()),
    );
    let by_runs = page_statement(
        tracks_list_text(like_it.as_str(), order.as_str(), 2).as_str(),
        two_texts(phrase.as_str(), norm.as_str()),
        start,
        count,
    );
    run_two_stages(
        ctx,
        one_stmt(count_sql.as_str(), part.as_str()),
        fuzzy_eligible(ctx, norm.as_str()),
        Stage { recount: Some(one_stmt(count_sql.as_str(), part.as_str())), list: by_name },
        Stage { recount: Some(again), list: by_runs },
        Found::Tracks,
        answers,
    )
}

/// The tracks that criteria find.
pub open spec fn tracks_step(
    fuzzy: bool,
    p: Predicate,
    start: usize,
    count: usize,
    make: spec_fn(Seq<Seq<Cell>>) -> DidlView,
    answers: Seq<AnswerView>,
) -> StepView<ChildrenView> {
    match track_column(p) {
        Some(t) => track_value_step(fuzzy, t.0, t.1, start, count, make, answers),
        None => criteria_step(
            clause(p, Target::Tracks, 0),
            TRACKS_COUNT_HEAD@,
            TRACKS_LIST_HEAD@,
            TRACKS_ORDER@,
            start,
            count,
            make,
            answers,
        ),
    }
}

pub fn search_track_items(
    ctx: &BrowseContext,
    predicate: &Predicate,
    start: usize,
    count: usize,
    answers: &[Answer],
) -> (r: Step<ChildrenResult>)
    ensures
        r@ == tracks_step(
            ctx.settings.search_fuzzy_enabled,
            *predicate,
            start,
            count,
            emitted(ctx.art_base_url@, ctx.stream_base_url@, Found::Tracks),
            answers_view(answers@),
        ),
{
    match single_track_fuzzy_target(predicate) {
        Some(t) => search_track_value(ctx, t.0, t.1, start, count, answers),
        None => run_criteria(
            ctx,
            walk(predicate, Target::Tracks, 0),
            Ghost(clause(*predicate, Target::Tracks, 0)),
            TRACKS_COUNT_HEAD,
            TRACKS_LIST_HEAD,
            TRACKS_ORDER,
            start,
            count,
            Found::Tracks,
            answers,
        ),
    }
}

// ── Search ───────────────────────────────────────────────────────────────

/// What the rows of a search become.
pub open spec fn sought(expr: SearchExpr) -> Found {
    match expr.class {
        ClassFilter::Album => Found::Albums,
        ClassFilter::Artist => artists_found(expr.predicate),
        _ => Found::Tracks,
    }
}

/// What a search finds. One that asks nothing finds nothing.
pub open spec fn search_step(
    fuzzy: bool,
    expr: SearchExpr,
    start: usize,
    count: usize,
    make: spec_fn(Seq<Seq<Cell>>) -> DidlView,
    answers: Seq<AnswerView>,
) -> StepView<ChildrenView> {
    if expr.asks_nothing() {
        none_found()
    } else {
        match expr.class {
            ClassFilter::Album => albums_step(fuzzy, expr.predicate, start, count, make, answers),
            ClassFilter::Artist => artists_step(
                fuzzy,
                expr.predicate,
                start,
                count,
                make,
                answers,
            ),
            _ => tracks_step(fuzzy, expr.predicate, start, count, make, answers),
        }
    }
}

fn as_search(step: Step<ChildrenResult>) -> (r: Step<SearchResult>)
    ensures
        r@ == step@,
{
    match step {
        Step::Query(s) => Step::Query(s),
        Step::Execute(s) => Step::Execute(s),
        Step::Batch(s) => Step::Batch(s),
        Step::Done(Err(e)) => Step::Done(Err(e)),
        Step::Done(Ok(found)) => Step::Done(
            Ok(SearchResult { didl: found.didl, total_matches: found.total_matches }),
        ),
    }
}

/// Search for albums, artists or tracks, whichever the class asks for.
pub fn search_tracks(
    ctx: &BrowseContext,
    expr: &SearchExpr,
    start: usize,
    count: usize,
    answers: &[Answer],
) -> (r: Step<SearchResult>)
    ensures
        r@ == search_step(
            ctx.settings.search_fuzzy_enabled,
            *expr,
            start,
            count,
            emitted(ctx.art_base_url@, ctx.stream_base_url@, sought(*expr)),
            answers_view(answers@),
        ),
{
    if expr.is_no_op() {
        return as_search(empty());
    }
    as_search(
        match expr.class {
            ClassFilter::Album => search_albums(ctx, &expr.predicate, start, count, answers),
            ClassFilter::Artist => search_artists(ctx, &expr.predicate, start, count, answers),
            _ => search_track_items(ctx, &expr.predicate, start, count, answers),
        },
    )
}

/// Where something contains what is searched for, nothing is taken that is only like
/// it: the search finds what it finds with the search for misspelt names switched off.
pub proof fn exact_hits_exclude_fuzzy_ones(
    expr: SearchExpr,
    start: usize,
    count: usize,
    make: spec_fn(Seq<Seq<Cell>>) -> DidlView,
    answers: Seq<AnswerView>,
    n: i64,
)
    requires
        answers.len() > 0,
        scalar_of(answers[0]) == Ok::<i64, ErrorView>(n),
        n > 0,
    ensures
        search_step(true, expr, start, count, make, answers) == search_step(
            false,
            expr,
            start,
            count,
            make,
            answers,
        ),
{
}

/// Whether criteria are a single comparison with a value of some length.
pub open spec fn may_be_misspelt(p: Predicate) -> bool {
    match p {
        Predicate::Contains { prop, value, role } => is_eligible(true, search_form(value@)),
        _ => false,
    }
}

/// Several criteria, and a value of fewer than three characters, find what they find
/// with the search for misspelt names switched off.
pub proof fn other_searches_are_exact(
    expr: SearchExpr,
    start: usize,
    count: usize,
    make: spec_fn(Seq<Seq<Cell>>) -> DidlView,
    answers: Seq<AnswerView>,
)
    requires
        !may_be_misspelt(expr.predicate),
    ensures
        search_step(true, expr, start, count, make, answers) == search_step(
            false,
            expr,
            start,
            count,
            make,
            answers,
        ),
{
}

// ── What searches ask ────────────────────────────────────────────────────

/// Whether criteria are several, joined by `and` or `or`.
pub open spec fn is_compound(p: Predicate) -> bool {
    p is And || p is Or
}

/// The two questions of a search, each about the same condition: how many there are, and
/// which, from `start` on, `count` at most. What is then told is that number and what the
/// rows become.
pub open spec fn asks_by(
    r: StepView<ChildrenView>,
    how_many: Seq<char>,
    which: Seq<char>,
    params: Seq<Cell>,
    start: usize,
    count: usize,
    make: spec_fn(Seq<Seq<Cell>>) -> DidlView,
    answers: Seq<AnswerView>,
) -> bool {
    &&& answers.len() == 0 ==> r == StepView::<ChildrenView>::Query(
        StatementView { sql: how_many, params },
    )
    &&& answers.len() == 1 ==> (scalar_of(answers[0]) is Ok ==> r == StepView::<ChildrenView>::Query(
        StatementView {
            sql: which,
            params: params + seq![Cell::Integer(count as i64), Cell::Integer(start as i64)],
        },
    ))
    &&& answers.len() > 1 ==> (scalar_of(answers[0]) matches Ok(n) ==> (rows_of(
        answers[1],
    ) matches Ok(rows) ==> r == StepView::<ChildrenView>::Done(
        Ok(ChildrenView { didl: make(rows), total_matches: n as usize }),
    )))
}

/// A search for tracks by several criteria asks for the tracks of which their condition
/// holds, in the order of their titles; where the criteria ask nothing of tracks, nothing
/// is found.
pub proof fn tracks_are_found_by_condition(
    ctx: &BrowseContext,
    expr: &SearchExpr,
    start: usize,
    count: usize,
    answers: &[Answer],
    w: WhereClause,
    r: Step<SearchResult>,
)
    requires
        call_ensures(search_tracks, (ctx, expr, start, count, answers), r),
        call_ensures(walk, (&expr.predicate, Target::Tracks, 0), w),
        expr.class is Track || expr.class is Any,
        is_compound(expr.predicate),
        w.params@.len() + 2 <= u64::MAX,
    ensures
        w.params@.len() == 0 ==> r@ == StepView::<ChildrenView>::Done(
            Ok(
                ChildrenView {
                    didl: DidlView { containers: Seq::empty(), items: Seq::empty() },
                    total_matches: 0,
                },
            ),
        ),
        w.params@.len() > 0 ==> asks_by(
            r@,
            "SELECT COUNT(*) FROM tracks t JOIN albums a ON t.album_id = a.id WHERE "@ + w.sql@,
            "SELECT t.id, t.album_id, t.title, t.artist, t.genre, t.track_num, t.disc_num, \
    t.duration_ms, t.sample_rate, t.bit_depth, t.channels, \
    t.bitrate, t.mime_type, t.file_size, a.album, \
    (SELECT IFNULL(MAX(disc_num), 0) FROM tracks WHERE album_id = t.album_id) > 1, \
    t.composer, t.conductor, t.performer \
    FROM tracks t JOIN albums a ON t.album_id = a.id WHERE "@ + w.sql@ + (" ORDER BY t.title_norm"@
                + (" LIMIT ?"@ + decimal(w.params@.len() + 1) + " OFFSET ?"@ + decimal(
                w.params@.len() + 2,
            ))),
            cells(w.params@),
            start,
            count,
            tracks_listed(ctx.art_base_url@, ctx.stream_base_url@, RowLayout::Told),
            answers_view(answers@),
        ),
{
    assert(cells(w.params@).len() == w.params@.len());
}

/// A search for albums by several criteria asks for the albums of which their condition
/// holds, in the order of their titles; where the criteria ask nothing of albums, nothing
/// is found.
pub proof fn albums_are_found_by_condition(
    ctx: &BrowseContext,
    expr: &SearchExpr,
    start: usize,
    count: usize,
    answers: &[Answer],
    w: WhereClause,
    r: Step<SearchResult>,
)
    requires
        call_ensures(search_tracks, (ctx, expr, start, count, answers), r),
        call_ensures(walk, (&expr.predicate, Target::Albums, 0), w),
        expr.class is Album,
        is_compound(expr.predicate),
        w.params@.len() + 2 <= u64::MAX,
    ensures
        w.params@.len() == 0 ==> r@ == StepView::<ChildrenView>::Done(
            Ok(
                ChildrenView {
                    didl: DidlView { containers: Seq::empty(), items: Seq::empty() },
                    total_matches: 0,
                },
            ),
        ),
        w.params@.len() > 0 ==> asks_by(
            r@,
            "SELECT COUNT(*) FROM albums WHERE "@ + w.sql@,
            "SELECT id, album, effective_album_artist, track_count FROM albums WHERE "@ + w.sql@ + (
            " ORDER BY album_norm"@ + (" LIMIT ?"@ + decimal(w.params@.len() + 1) + " OFFSET ?"@
                + decimal(w.params@.len() + 2))),
            cells(w.params@),
            start,
            count,
            listed(ShapeView::Albums { parent: "cat:al"@ }, ctx.art_base_url@),
            answers_view(answers@),
        ),
{
    assert(cells(w.params@).len() == w.params@.len());
}

/// A search for artists by several criteria without a known role asks for the names of
/// which the condition holds as album artists, or as artists of tracks.
pub proof fn artists_are_found_by_condition(
    ctx: &BrowseContext,
    expr: &SearchExpr,
    start: usize,
    count: usize,
    answers: &[Answer],
    aa: WhereClause,
    tr: WhereClause,
    r: Step<SearchResult>,
)
    requires
        call_ensures(search_tracks, (ctx, expr, start, count, answers), r),
        call_ensures(walk, (&expr.predicate, Target::AlbumArtists, 0), aa),
        call_ensures(walk, (&expr.predicate, Target::TrackArtists, aa.params@.len() as u64), tr),
        expr.class is Artist,
        is_compound(expr.predicate),
        stated_role(expr.predicate) is None,
        aa.params@.len() + tr.params@.len() + 2 <= u64::MAX,
    ensures
        aa.params@.len() + tr.params@.len() == 0 ==> r@ == StepView::<ChildrenView>::Done(
            Ok(
                ChildrenView {
                    didl: DidlView { containers: Seq::empty(), items: Seq::empty() },
                    total_matches: 0,
                },
            ),
        ),
        aa.params@.len() + tr.params@.len() > 0 ==> asks_by(
            r@,
            "SELECT COUNT(*) FROM (SELECT effective_album_artist AS name FROM albums WHERE "@ + aa.sql@
                + " UNION SELECT artist AS name FROM tracks WHERE artist IS NOT NULL AND artist != '' AND "@
                + tr.sql@ + ")"@,
            "SELECT name, MAX(is_aa) AS is_aa FROM (SELECT effective_album_artist AS name, effective_album_artist_norm AS name_norm, 1 AS is_aa"@
                + ""@ + " FROM albums WHERE "@ + aa.sql@
                + " UNION ALL SELECT artist AS name, artist_norm AS name_norm, 0 AS is_aa"@ + ""@
                + " FROM tracks WHERE artist IS NOT NULL AND artist != '' AND "@ + tr.sql@
                + ") GROUP BY name ORDER BY "@ + ""@ + "MIN(name_norm)"@ + (" LIMIT ?"@ + decimal(
                (aa.params@.len() + tr.params@.len() + 1) as nat,
            ) + " OFFSET ?"@ + decimal((aa.params@.len() + tr.params@.len() + 2) as nat)),
            cells(aa.params@) + cells(tr.params@),
            start,
            count,
            |rows: Seq<Seq<Cell>>|
                only_containers(rows.filter_map(|row: Seq<Cell>| artist_at(row))),
            answers_view(answers@),
        ),
{
    assert(cells(aa.params@).len() == aa.params@.len());
    assert(cells(tr.params@).len() == tr.params@.len());
    let params = cells(aa.params@) + cells(tr.params@);
    assert(params.len() == aa.params@.len() + tr.params@.len());
    assert(sought(*expr) == Found::Artists);
    let a = clause(expr.predicate, Target::AlbumArtists, 0);
    assert(a.params.len() == aa.params@.len());
}

/// A name found among artists stands for the album artist of that name where there is one,
/// else for the artist of tracks.
pub proof fn found_artists_are_album_artists_first(name: Seq<char>, flag: i64)
    ensures
        artist_at(seq![Cell::Text(name), Cell::Integer(flag)]) matches Some(c) && {
            &&& c.title == name
            &&& flag == 1 ==> c.id == "aa:"@ + crate::upnp::object_id::encoded_name(name)
                && c.parent_id == "cat:aa"@
            &&& flag != 1 ==> c.id == "ar:"@ + crate::upnp::object_id::encoded_name(name)
                && c.parent_id == "cat:ar"@
            &&& c.upnp_class == "object.container.person.musicArtist"@
        },
{
}

/// Where a single value is looked for among tracks, the first question is how many have it
/// as a part of the column that the property stands for. Where some have it, or nothing
/// else may be taken, these are listed by their titles.
pub proof fn tracks_are_found_by_value(
    ctx: &BrowseContext,
    expr: &SearchExpr,
    start: usize,
    count: usize,
    answers: &[Answer],
    r: Step<SearchResult>,
)
    requires
        call_ensures(search_tracks, (ctx, expr, start, count, answers), r),
        expr.class is Track || expr.class is Any,
        expr.predicate matches Predicate::Contains { prop, value, role } && !(prop is Album),
    ensures
        ({
            let prop = expr.predicate->prop;
            let role = opt_text(expr.predicate->role);
            let norm = search_form(expr.predicate->value@);
            let column = match prop {
                Property::Title => "title_norm"@,
                Property::Genre => "genre_norm"@,
                _ => if role == Some("Composer"@) {
                    "composer_norm"@
                } else if role == Some("Conductor"@) {
                    "conductor_norm"@
                } else if role == Some("Performer"@) {
                    "performer_norm"@
                } else {
                    "artist_norm"@
                },
            };
            let first = StatementView {
                sql: "SELECT COUNT(*) FROM tracks t JOIN albums a ON t.album_id = a.id WHERE "@ + (
                "t."@ + column + " LIKE ?1"@),
                params: seq![Cell::Text("%"@ + norm + "%"@)],
            };
            let a = answers_view(answers@);
            &&& a.len() == 0 ==> r@ == StepView::<ChildrenView>::Query(first)
            &&& a.len() > 0 ==> (scalar_of(a[0]) matches Ok(n) ==> (n > 0
                || !ctx.settings.search_fuzzy_enabled || norm.len() < 3 || trimmed(norm).len() == 0
                ==> asks_by(
                r@,
                first.sql,
                "SELECT t.id, t.album_id, t.title, t.artist, t.genre, t.track_num, t.disc_num, \
    t.duration_ms, t.sample_rate, t.bit_depth, t.channels, \
    t.bitrate, t.mime_type, t.file_size, a.album, \
    (SELECT IFNULL(MAX(disc_num), 0) FROM tracks WHERE album_id = t.album_id) > 1, \
    t.composer, t.conductor, t.performer \
    FROM tracks t JOIN albums a ON t.album_id = a.id WHERE "@ + ("t."@ + column + " LIKE ?1"@)
                    + " ORDER BY "@ + "t.title_norm"@ + (" LIMIT ?"@ + decimal(2) + " OFFSET ?"@
                    + decimal(3)),
                first.params,
                start,
                count,
                tracks_listed(ctx.art_base_url@, ctx.stream_base_url@, RowLayout::Told),
                a.skip(1),
            )))
            &&& a.len() > 0 ==> (scalar_of(a[0]) matches Ok(n) ==> (n <= 0
                && ctx.settings.search_fuzzy_enabled && norm.len() >= 3 && trimmed(norm).len() > 0
                ==> asks_by(
                r@,
                "SELECT COUNT(*) FROM tracks t JOIN albums a ON t.album_id = a.id WHERE "@ + (
                "t.id"@
                    + " IN (SELECT rowid FROM tracks_fts WHERE tracks_fts MATCH ?1) AND jaccard_trigram("@
                    + ("t."@ + column) + ", ?2) >= 0.2"@),
                "SELECT t.id, t.album_id, t.title, t.artist, t.genre, t.track_num, t.disc_num, \
    t.duration_ms, t.sample_rate, t.bit_depth, t.channels, \
    t.bitrate, t.mime_type, t.file_size, a.album, \
    (SELECT IFNULL(MAX(disc_num), 0) FROM tracks WHERE album_id = t.album_id) > 1, \
    t.composer, t.conductor, t.performer \
    FROM tracks t JOIN albums a ON t.album_id = a.id WHERE "@ + ("t.id"@
                    + " IN (SELECT rowid FROM tracks_fts WHERE tracks_fts MATCH ?1) AND jaccard_trigram("@
                    + ("t."@ + column) + ", ?2) >= 0.2"@) + " ORDER BY "@ + ("jaccard_trigram("@ + (
                "t."@ + column) + ", ?2) DESC, "@ + "t.title_norm"@) + (" LIMIT ?"@ + decimal(3)
                    + " OFFSET ?"@ + decimal(4)),
                seq![Cell::Text(column_trigrams(column, norm)), Cell::Text(norm)],
                start,
                count,
                tracks_listed(ctx.art_base_url@, ctx.stream_base_url@, RowLayout::Told),
                a.skip(1),
            )))
        }),
{
    assert(answers_view(answers@).len() == answers@.len());
}

/// A search for artists that states a known role asks for the people with that role of
/// which the condition holds, by name: each once, and nobody without a name. What is found
/// stands for people with that role.
pub proof fn people_are_found_by_their_role(
    ctx: &BrowseContext,
    expr: &SearchExpr,
    start: usize,
    count: usize,
    answers: &[Answer],
    named: Named,
    w: WhereClause,
    r: Step<SearchResult>,
)
    requires
        call_ensures(search_tracks, (ctx, expr, start, count, answers), r),
        expr.class is Artist,
        stated_role(expr.predicate) == Some("Composer"@) && named is Composer || stated_role(
            expr.predicate,
        ) == Some("Conductor"@) && named is Conductor || stated_role(expr.predicate) == Some(
            "Performer"@,
        ) && named is Performer,
        call_ensures(
            walk,
            (
                &expr.predicate,
                match named {
                    Named::Conductor => Target::Conductors,
                    Named::Performer => Target::Performers,
                    _ => Target::Composers,
                },
                0,
            ),
            w,
        ),
        0 < w.params@.len() <= u64::MAX - 2,
    ensures
        ({
            let col = match named {
                Named::Conductor => "conductor"@,
                Named::Performer => "performer"@,
                _ => "composer"@,
            };
            let a = answers_view(answers@);
            let list = StatementView {
                sql: "SELECT DISTINCT "@ + col + " FROM tracks WHERE "@ + col + " IS NOT NULL AND "@
                    + col + " != '' AND "@ + w.sql@ + " ORDER BY "@ + (col + "_norm"@) + (
                " LIMIT ?"@ + decimal(w.params@.len() + 1) + " OFFSET ?"@ + decimal(
                    w.params@.len() + 2,
                )),
                params: cells(w.params@) + seq![
                    Cell::Integer(count as i64),
                    Cell::Integer(start as i64),
                ],
            };
            &&& a.len() == 0 ==> r@ == StepView::<ChildrenView>::Query(
                StatementView {
                    sql: "SELECT COUNT(*) FROM (SELECT DISTINCT "@ + col + " FROM tracks WHERE "@ + col
                        + " IS NOT NULL AND "@ + col + " != '' AND "@ + w.sql@ + ")"@,
                    params: cells(w.params@),
                },
            )
            &&& a.len() == 1 ==> (scalar_of(a[0]) matches Ok(n) ==> (n > 0
                || !ctx.settings.search_fuzzy_enabled || is_compound(expr.predicate) ==> r@
                == StepView::<ChildrenView>::Query(list)))
            &&& a.len() > 1 ==> (scalar_of(a[0]) matches Ok(n) ==> (n > 0
                || !ctx.settings.search_fuzzy_enabled || is_compound(expr.predicate) ==> (rows_of(
                a[1],
            ) matches Ok(rows) ==> r@ == StepView::<ChildrenView>::Done(
                Ok(
                    ChildrenView {
                        didl: listed(ShapeView::Names(named), ctx.art_base_url@)(rows),
                        total_matches: n as usize,
                    },
                ),
            ))))
        }),
{
    reveal_strlit("Composer");
    reveal_strlit("Conductor");
    reveal_strlit("Performer");
    assert("Composer"@[2] == 'm' && "Conductor"@[2] == 'n' && "Performer"@[0] == 'P');
    assert("Composer"@ != "Conductor"@ && "Composer"@ != "Performer"@ && "Conductor"@
        != "Performer"@);
    assert(cells(w.params@).len() == w.params@.len());
    assert(asked_role(expr.predicate) == Some(named));
    assert(!expr.asks_nothing());
    let a = answers_view(answers@);
    if a.len() > 1 {
        assert(a.skip(1)[0] == a[1]);
    }
}

/// Of the roles that several criteria state, the first one counts.
pub proof fn roles_are_found_in_criteria(children: Seq<Predicate>, i: int)
    requires
        0 <= i < children.len(),
        stated_role(children[i]) is Some,
        forall|j: int| 0 <= j < i ==> stated_role(#[trigger] children[j]) is None,
    ensures
        stated_role_in(children) == stated_role(children[i]),
{
    let front = children.subrange(0, i);
    lemma_no_role_in(front);
    let now = children.subrange(0, i + 1);
    assert(now.subrange(0, now.len() - 1) =~= front);
    assert(now[now.len() - 1] == children[i]);
    lemma_first_role_stays(children, i + 1);
}

proof fn lemma_no_role_in(children: Seq<Predicate>)
    requires
        forall|j: int| 0 <= j < children.len() ==> stated_role(#[trigger] children[j]) is None,
    ensures
        stated_role_in(children) is None,
    decreases children.len(),
{
    if children.len() > 0 {
        let front = children.subrange(0, children.len() - 1);
        assert forall|j: int| 0 <= j < front.len() implies stated_role(#[trigger] front[j])
            is None by {
            assert(front[j] == children[j]);
        }
        lemma_no_role_in(front);
    }
}

/// Where a single title is looked for among albums, it is looked for in the titles of
/// albums, the names of their artists and those of the artists of their tracks. Where one
/// of these contains it, or nothing else may be taken, the albums are listed by how well
/// they fit; else those are that share enough runs of three characters with it, the closest
/// first.
pub proof fn albums_are_found_by_value(
    ctx: &BrowseContext,
    expr: &SearchExpr,
    start: usize,
    count: usize,
    answers: &[Answer],
    r: Step<SearchResult>,
)
    requires
        call_ensures(search_tracks, (ctx, expr, start, count, answers), r),
        expr.class is Album,
        expr.predicate matches Predicate::Contains { prop, value, role } && prop is Title,
    ensures
        ({
            let norm = search_form(expr.predicate->value@);
            let part = "%"@ + norm + "%"@;
            let page = seq![Cell::Integer(count as i64), Cell::Integer(start as i64)];
            let a = answers_view(answers@);
            let like_it = StatementView {
                sql: "SELECT id, album, effective_album_artist, track_count FROM albums \
    WHERE album_norm LIKE ?1 \
    OR effective_album_artist_norm LIKE ?1 \
    OR EXISTS (SELECT 1 FROM tracks WHERE album_id = albums.id AND artist_norm LIKE ?1) \
    ORDER BY CASE \
    WHEN album_norm = ?2 THEN 0 \
    WHEN effective_album_artist_norm LIKE ?1 THEN 1 \
    WHEN album_norm LIKE ?1 THEN 2 \
    ELSE 3 END, \
    album_norm \
    LIMIT ?3 OFFSET ?4"@,
                params: seq![Cell::Text(part), Cell::Text(norm)] + page,
            };
            let make = listed(ShapeView::Albums { parent: "cat:al"@ }, ctx.art_base_url@);
            &&& a.len() == 0 ==> r@ == StepView::<ChildrenView>::Query(
                StatementView {
                    sql: "SELECT COUNT(*) FROM albums WHERE \
    album_norm LIKE ?1 \
    OR effective_album_artist_norm LIKE ?1 \
    OR EXISTS (SELECT 1 FROM tracks WHERE album_id = albums.id AND artist_norm LIKE ?1)"@,
                    params: seq![Cell::Text(part)],
                },
            )
            &&& a.len() > 0 ==> (scalar_of(a[0]) matches Ok(n) ==> (n > 0
                || !ctx.settings.search_fuzzy_enabled || norm.len() < 3 || trimmed(norm).len() == 0
                ==> {
                &&& a.len() == 1 ==> r@ == StepView::<ChildrenView>::Query(like_it)
                &&& a.len() > 1 ==> (rows_of(a[1]) matches Ok(rows) ==> r@ == StepView::<
                    ChildrenView,
                >::Done(Ok(ChildrenView { didl: make(rows), total_matches: n as usize })))
            }))
            &&& a.len() > 0 ==> (scalar_of(a[0]) matches Ok(n) ==> (n <= 0
                && ctx.settings.search_fuzzy_enabled && norm.len() >= 3 && trimmed(norm).len() > 0
                ==> asks_by(
                r@,
                "SELECT COUNT(*) FROM albums WHERE \
    albums.id IN (SELECT rowid FROM albums_fts WHERE albums_fts MATCH ?1) \
    AND MAX(jaccard_trigram(album_norm, ?2), \
    jaccard_trigram(effective_album_artist_norm, ?2)) >= 0.2"@,
                "SELECT id, album, effective_album_artist, track_count FROM albums WHERE \
    albums.id IN (SELECT rowid FROM albums_fts WHERE albums_fts MATCH ?1) \
    AND MAX(jaccard_trigram(album_norm, ?2), \
    jaccard_trigram(effective_album_artist_norm, ?2)) >= 0.2 \
    ORDER BY MAX(jaccard_trigram(album_norm, ?2), \
    jaccard_trigram(effective_album_artist_norm, ?2)) DESC, \
    album_norm \
    LIMIT ?3 OFFSET ?4"@,
                seq![Cell::Text(trigram_or(norm)), Cell::Text(norm)],
                start,
                count,
                make,
                a.skip(1),
            )))
        }),
{
    let a = answers_view(answers@);
    if a.len() > 1 {
        assert(a.skip(1)[0] == a[1]);
    }
}

/// Where a single name without a role is looked for among artists, it is looked for in the
/// names of album artists and of the artists of tracks. Where one contains it, or nothing
/// else may be taken, these are listed by name; else those are that share enough runs of
/// three characters with it, the closest first.
pub proof fn artists_are_found_by_value(
    ctx: &BrowseContext,
    expr: &SearchExpr,
    start: usize,
    count: usize,
    answers: &[Answer],
    r: Step<SearchResult>,
)
    requires
        call_ensures(search_tracks, (ctx, expr, start, count, answers), r),
        expr.class is Artist,
        expr.predicate matches Predicate::Contains { prop, value, role } && (prop is Title
            || prop is Artist) && role is None,
    ensures
        ({
            let norm = search_form(expr.predicate->value@);
            let by_name = seq![Cell::Text("%"@ + norm + "%"@)];
            let by_runs = seq![
                Cell::Text(column_trigrams("effective_album_artist_norm"@, norm)),
                Cell::Text(column_trigrams("artist_norm"@, norm)),
                Cell::Text(norm),
            ];
            let page = seq![Cell::Integer(count as i64), Cell::Integer(start as i64)];
            let a = answers_view(answers@);
            let how_many = |aa: Seq<char>, tr: Seq<char>|
                "SELECT COUNT(*) FROM (SELECT effective_album_artist AS name FROM albums WHERE "@ + aa
                    + " UNION SELECT artist AS name FROM tracks WHERE artist IS NOT NULL AND artist != '' AND "@
                    + tr + ")"@;
            let which = |
                score_aa: Seq<char>,
                aa: Seq<char>,
                score_tr: Seq<char>,
                tr: Seq<char>,
                order: Seq<char>,
                n: nat,
            |
                "SELECT name, MAX(is_aa) AS is_aa FROM (SELECT effective_album_artist AS name, effective_album_artist_norm AS name_norm, 1 AS is_aa"@
                    + score_aa + " FROM albums WHERE "@ + aa
                    + " UNION ALL SELECT artist AS name, artist_norm AS name_norm, 0 AS is_aa"@
                    + score_tr + " FROM tracks WHERE artist IS NOT NULL AND artist != '' AND "@ + tr
                    + ") GROUP BY name ORDER BY "@ + order + "MIN(name_norm)"@ + (" LIMIT ?"@
                    + decimal(n + 1) + " OFFSET ?"@ + decimal(n + 2));
            let make = |rows: Seq<Seq<Cell>>|
                only_containers(rows.filter_map(|row: Seq<Cell>| artist_at(row)));
            let aa = "effective_album_artist_norm LIKE ?1"@;
            let tr = "artist_norm LIKE ?1"@;
            &&& a.len() == 0 ==> r@ == StepView::<ChildrenView>::Query(
                StatementView { sql: how_many(aa, tr), params: by_name },
            )
            &&& a.len() > 0 ==> (scalar_of(a[0]) matches Ok(n) ==> (n > 0
                || !ctx.settings.search_fuzzy_enabled || norm.len() < 3 || trimmed(norm).len() == 0
                ==> {
                &&& a.len() == 1 ==> r@ == StepView::<ChildrenView>::Query(
                    StatementView {
                        sql: which(""@, aa, ""@, tr, ""@, 1),
                        params: by_name + page,
                    },
                )
                &&& a.len() > 1 ==> (rows_of(a[1]) matches Ok(rows) ==> r@ == StepView::<
                    ChildrenView,
                >::Done(Ok(ChildrenView { didl: make(rows), total_matches: n as usize })))
            }))
            &&& a.len() > 0 ==> (scalar_of(a[0]) matches Ok(n) ==> (n <= 0
                && ctx.settings.search_fuzzy_enabled && norm.len() >= 3 && trimmed(norm).len() > 0
                ==> asks_by(
                r@,
                how_many(
                    "id IN (SELECT rowid FROM albums_fts WHERE albums_fts MATCH ?1) \
    AND jaccard_trigram(effective_album_artist_norm, ?3) >= 0.2"@,
                    "id IN (SELECT rowid FROM tracks_fts WHERE tracks_fts MATCH ?2) \
    AND jaccard_trigram(artist_norm, ?3) >= 0.2"@,
                ),
                which(
                    ", jaccard_trigram(effective_album_artist_norm, ?3) AS score"@,
                    "id IN (SELECT rowid FROM albums_fts WHERE albums_fts MATCH ?1) \
    AND jaccard_trigram(effective_album_artist_norm, ?3) >= 0.2"@,
                    ", jaccard_trigram(artist_norm, ?3) AS score"@,
                    "id IN (SELECT rowid FROM tracks_fts WHERE tracks_fts MATCH ?2) \
    AND jaccard_trigram(artist_norm, ?3) >= 0.2"@,
                    "MAX(score) DESC, "@,
                    3,
                ),
                by_runs,
                start,
                count,
                make,
                a.skip(1),
            )))
        }),
{
    let a = answers_view(answers@);
    assert(sought(*expr) == Found::Artists);
    if a.len() > 1 {
        assert(a.skip(1)[0] == a[1]);
    }
}

/// A query for names like a value asks for any of the value's runs of three characters:
/// each run that is in it stands between quotes, with `OR` between one and the next.
pub proof fn runs_are_asked_for_by_or(norm: &str, column: &str, any: String, in_column: String)
    requires
        call_ensures(fts5_trigram_or, (norm,), any),
        call_ensures(fts5_col_trigram_query, (column, norm), in_column),
    ensures
        ({
            let runs = distinct_trigrams(norm@);
            &&& any@ == joined(runs.map_values(|t: Trigram| quoted(t)), " OR "@)
            &&& forall|i: int|
                0 <= i < runs.len() && runs[i].0 != '"' && runs[i].1 != '"' && runs[i].2 != '"'
                    ==> quoted(#[trigger] runs[i]) == seq!['"', runs[i].0, runs[i].1, runs[i].2, '"']
            &&& any@.len() > 0 ==> in_column@ == "{"@ + column@ + "}: ("@ + any@ + ")"@
            &&& any@.len() == 0 ==> in_column@.len() == 0
        }),
{
    let runs = distinct_trigrams(norm@);
    assert forall|i: int|
        0 <= i < runs.len() && runs[i].0 != '"' && runs[i].1 != '"' && runs[i].2
            != '"' implies quoted(#[trigger] runs[i]) == seq![
        '"',
        runs[i].0,
        runs[i].1,
        runs[i].2,
        '"',
    ] by {
        assert(quoted(runs[i]) =~= seq!['"', runs[i].0, runs[i].1, runs[i].2, '"']);
    }
}

// ── Failures ─────────────────────────────────────────────────────────────

/// Whether a step is the failure of the last question.
pub open spec fn is_failure(step: StepView<ChildrenView>, all: Seq<AnswerView>) -> bool {
    all.last() matches AnswerView::Failed(e) ==> (!(e is QueryReturnedNoRows) ==> step
        == StepView::<ChildrenView>::Done(Err(ErrorView::Sqlite(e))))
}

proof fn lemma_counted_failure(
    count: StatementView,
    list: StatementView,
    make: spec_fn(Seq<Seq<Cell>>) -> DidlView,
    all: Seq<AnswerView>,
)
    ensures
        all.len() > 0 && counted_step(count, list, make, all.take(all.len() - 1)) is Query
            ==> is_failure(counted_step(count, list, make, all), all),
{
    if all.len() > 1 {
        assert(all.take(all.len() - 1)[0] == all[0]);
    }
}

proof fn lemma_two_stage_failure(
    first: StatementView,
    eligible: bool,
    exact: StageView,
    fuzzy: StageView,
    make: spec_fn(Seq<Seq<Cell>>) -> DidlView,
    all: Seq<AnswerView>,
)
    ensures
        all.len() > 0 && two_stage_step(
            first,
            eligible,
            exact,
            fuzzy,
            make,
            all.take(all.len() - 1),
        ) is Query ==> is_failure(two_stage_step(first, eligible, exact, fuzzy, make, all), all),
{
    let before = all.take(all.len() - 1);
    if all.len() > 1 {
        assert(before[0] == all[0]);
        let rest = all.skip(1);
        assert(before.skip(1) =~= rest.take(rest.len() - 1));
        assert(rest.last() == all.last());
        if let Some(c) = exact.recount {
            lemma_counted_failure(c, exact.list, make, rest);
        }
        if let Some(c) = fuzzy.recount {
            lemma_counted_failure(c, fuzzy.list, make, rest);
        }
    }
}

/// A search whose questions fail is not told as if nothing had been found: the first that
/// fails ends it with its failure.
#[verifier::rlimit(100)]
pub proof fn failed_searches_are_told(
    ctx: &BrowseContext,
    expr: &SearchExpr,
    start: usize,
    count: usize,
    answers: &[Answer],
    r: Step<SearchResult>,
)
    requires
        call_ensures(search_tracks, (ctx, expr, start, count, answers), r),
    ensures
        ({
            let all = answers_view(answers@);
            let make = emitted(ctx.art_base_url@, ctx.stream_base_url@, sought(*expr));
            all.len() > 0 && search_step(
                ctx.settings.search_fuzzy_enabled,
                *expr,
                start,
                count,
                make,
                all.take(all.len() - 1),
            ) is Query ==> is_failure(r@, all)
        }),
{
    let all = answers_view(answers@);
    let make = emitted(ctx.art_base_url@, ctx.stream_base_url@, sought(*expr));
    assert forall|count: StatementView, list: StatementView|
        all.len() > 0 && #[trigger] counted_step(count, list, make, all.take(all.len() - 1))
            is Query implies is_failure(counted_step(count, list, make, all), all) by {
        lemma_counted_failure(count, list, make, all);
    }
    assert forall|first: StatementView, eligible: bool, exact: StageView, fuzzy: StageView|
        all.len() > 0 && #[trigger] two_stage_step(
            first,
            eligible,
            exact,
            fuzzy,
            make,
            all.take(all.len() - 1),
        ) is Query implies is_failure(
        two_stage_step(first, eligible, exact, fuzzy, make, all),
        all,
    ) by {
        lemma_two_stage_failure(first, eligible, exact, fuzzy, make, all);
    }
}

} // verus!
