//! Search criteria as conditions of a statement.
//!
//! A criterion compares a property with a value; which columns that means depends on
//! what is searched. The values are compared in their search form, as parts of the
//! columns' search forms.

use vstd::prelude::*;

use crate::db::query::{cells, Cell, SqlValue};
use crate::normalize::{for_search, search_form};
use crate::text::{self, decimal, opt_text};
use crate::upnp::search::{Predicate, Property};

verus! {

/// What is searched.
#[derive(Debug, Clone, Copy, PartialEq, Eq, Structural)]
pub enum Target {
    Albums,
    AlbumArtists,
    TrackArtists,
    Tracks,
    Composers,
    Conductors,
    Performers,
}

/// A comparison with a value: the words before and after the value's place.
pub struct TemplateView {
    pub before: Seq<char>,
    pub after: Seq<char>,
}

/// A comparison with a value.
#[derive(Debug)]
pub struct Template {
    pub before: &'static str,
    pub after: &'static str,
}

pub open spec fn templates_view(v: Seq<Template>) -> Seq<TemplateView> {
    v.map_values(|t: Template| TemplateView { before: t.before@, after: t.after@ })
}

pub open spec fn one(before: Seq<char>) -> Seq<TemplateView> {
    seq![TemplateView { before, after: ""@ }]
}

/// The column of a track's artist, or of the one with the given role.
pub open spec fn artist_column(role: Option<Seq<char>>) -> Seq<char> {
    if role == Some("Composer"@) {
        "t.composer_norm LIKE "@
    } else if role == Some("Conductor"@) {
        "t.conductor_norm LIKE "@
    } else if role == Some("Performer"@) {
        "t.performer_norm LIKE "@
    } else {
        "t.artist_norm LIKE "@
    }
}

/// The comparisons that a property stands for, any of which may hold. Where there is
/// none, the property means nothing for what is searched.
///
/// The title of an album stands for its artists too, those of its tracks among them:
/// so an artist's name finds the artist's albums and those with a track by the artist.
pub open spec fn comparisons(target: Target, prop: Property, role: Option<Seq<char>>) -> Seq<
    TemplateView,
> {
    match (target, prop) {
        (Target::Albums, Property::Title) => seq![
            TemplateView { before: "album_norm LIKE "@, after: ""@ },
            TemplateView { before: "effective_album_artist_norm LIKE "@, after: ""@ },
            TemplateView {
                before:
                    "EXISTS (SELECT 1 FROM tracks WHERE album_id = albums.id AND artist_norm LIKE "@,
                after: ")"@,
            },
        ],
        (Target::Albums, Property::Album) => one("album_norm LIKE "@),
        (Target::Albums, Property::Artist) => one("effective_album_artist_norm LIKE "@),
        (Target::Albums, Property::Genre) => Seq::empty(),
        (Target::Tracks, Property::Title) => one("t.title_norm LIKE "@),
        (Target::Tracks, Property::Album) => one("a.album_norm LIKE "@),
        (Target::Tracks, Property::Artist) => one(artist_column(role)),
        (Target::Tracks, Property::Genre) => one("t.genre_norm LIKE "@),
        (_, Property::Album) => Seq::empty(),
        (_, Property::Genre) => Seq::empty(),
        (Target::AlbumArtists, _) => one("effective_album_artist_norm LIKE "@),
        (Target::TrackArtists, _) => one("artist_norm LIKE "@),
        (Target::Composers, _) => one("composer_norm LIKE "@),
        (Target::Conductors, _) => one("conductor_norm LIKE "@),
        (Target::Performers, _) => one("performer_norm LIKE "@),
    }
}

fn only(before: &'static str) -> (r: Vec<Template>)
    ensures
        templates_view(r@) == one(before@),
{
    let r = vec![Template { before, after: "" }];
    assert(templates_view(r@) =~= one(before@));
    r
}

fn none() -> (r: Vec<Template>)
    ensures
        templates_view(r@) == Seq::<TemplateView>::empty(),
{
    let r: Vec<Template> = Vec::new();
    assert(templates_view(r@) =~= Seq::empty());
    r
}

fn is_role(role: &Option<String>, name: &str) -> (r: bool)
    ensures
        r == (opt_text(*role) == Some(name@)),
{
    match role {
        Some(s) => text::same(s.as_str(), name),
        None => false,
    }
}

fn templates_for(target: Target, prop: Property, role: &Option<String>) -> (r: Vec<Template>)
    ensures
        templates_view(r@) == comparisons(target, prop, opt_text(*role)),
{
    match target {
        Target::Albums => match prop {
            Property::Title => {
                let r = vec![
                    Template { before: "album_norm LIKE ", after: "" },
                    Template { before: "effective_album_artist_norm LIKE ", after: "" },
                    Template {
                        before:
                            "EXISTS (SELECT 1 FROM tracks WHERE album_id = albums.id AND artist_norm LIKE ",
                        after: ")",
                    },
                ];
                assert(templates_view(r@) =~= comparisons(target, prop, opt_text(*role)));
                r
            },
            Property::Album => only("album_norm LIKE "),
            Property::Artist => only("effective_album_artist_norm LIKE "),
            Property::Genre => none(),
        },
        Target::Tracks => match prop {
            Property::Title => only("t.title_norm LIKE "),
            Property::Album => only("a.album_norm LIKE "),
            Property::Artist => if is_role(role, "Composer") {
                only("t.composer_norm LIKE ")
            } else if is_role(role, "Conductor") {
                only("t.conductor_norm LIKE ")
            } else if is_role(role, "Performer") {
                only("t.performer_norm LIKE ")
            } else {
                only("t.artist_norm LIKE ")
            },
            Property::Genre => only("t.genre_norm LIKE "),
        },
        _ => match prop {
            Property::Album => none(),
            Property::Genre => none(),
            _ => match target {
                Target::AlbumArtists => only("effective_album_artist_norm LIKE "),
                Target::TrackArtists => only("artist_norm LIKE "),
                Target::Composers => only("composer_norm LIKE "),
                Target::Conductors => only("conductor_norm LIKE "),
                _ => only("performer_norm LIKE "),
            },
        },
    }
}

// ── Conditions ───────────────────────────────────────────────────────────

/// A piece of a condition: words, or the place of a numbered parameter.
pub enum Piece {
    Words(Seq<char>),
    Place(nat),
}

/// A condition and its parameters.
pub struct Clause {
    pub pieces: Seq<Piece>,
    pub params: Seq<Cell>,
}

/// The text of a piece.
pub open spec fn piece_text(p: Piece) -> Seq<char> {
    match p {
        Piece::Words(w) => w,
        Piece::Place(n) => "?"@ + decimal(n),
    }
}

/// The text of a condition.
pub open spec fn rendered(pieces: Seq<Piece>) -> Seq<char>
    decreases pieces.len(),
{
    if pieces.len() == 0 {
        Seq::empty()
    } else {
        rendered(pieces.drop_last()) + piece_text(pieces.last())
    }
}

/// No condition.
pub open spec fn no_clause() -> Clause {
    Clause { pieces: Seq::empty(), params: Seq::empty() }
}

/// A number that a parameter can have.
pub open spec fn place(n: nat) -> nat {
    if n > u64::MAX {
        u64::MAX as nat
    } else {
        n
    }
}

/// Any of the comparisons, with the parameter of the given number.
pub open spec fn either(templates: Seq<TemplateView>, n: nat) -> Seq<Piece>
    decreases templates.len(),
{
    if templates.len() == 0 {
        Seq::empty()
    } else {
        let t = templates.last();
        let front = templates.drop_last();
        let own = seq![Piece::Words(t.before), Piece::Place(n), Piece::Words(t.after)];
        if front.len() == 0 {
            own
        } else {
            either(front, n) + seq![Piece::Words(" OR "@)] + own
        }
    }
}

pub open spec fn in_brackets(pieces: Seq<Piece>) -> Seq<Piece> {
    seq![Piece::Words("("@)] + pieces + seq![Piece::Words(")"@)]
}

/// A value as a part of a text.
pub open spec fn like(value: Seq<char>) -> Seq<char> {
    "%"@ + value + "%"@
}

/// The comparison of a property, with the parameter after the first `base`.
pub open spec fn leaf(
    target: Target,
    prop: Property,
    value: Seq<char>,
    role: Option<Seq<char>>,
    base: nat,
) -> Clause {
    let templates = comparisons(target, prop, role);
    if templates.len() == 0 {
        no_clause()
    } else {
        let own = either(templates, place(base + 1));
        Clause {
            pieces: if templates.len() == 1 {
                own
            } else {
                in_brackets(own)
            },
            params: seq![Cell::Text(like(search_form(value)))],
        }
    }
}

/// The condition of criteria on the target, its parameters numbered after the first
/// `base`. Criteria that mean nothing for the target are left out.
pub open spec fn clause(p: Predicate, target: Target, base: nat) -> Clause
    decreases p,
{
    match p {
        Predicate::Contains { prop, value, role } => leaf(
            target,
            prop,
            value@,
            opt_text(role),
            base,
        ),
        Predicate::And(children) => {
            let all = joined_clauses(children@, " AND "@, target, base);
            if all.params.len() == 0 {
                no_clause()
            } else {
                Clause { pieces: in_brackets(all.pieces), params: all.params }
            }
        },
        Predicate::Or(children) => {
            let all = joined_clauses(children@, " OR "@, target, base);
            if all.params.len() == 0 {
                no_clause()
            } else {
                Clause { pieces: in_brackets(all.pieces), params: all.params }
            }
        },
        Predicate::DerivedFrom(_) => no_clause(),
        Predicate::True => no_clause(),
    }
}

/// Two conditions with a word between them, or the one there is.
pub open spec fn beside(a: Clause, sep: Seq<char>, b: Clause) -> Clause {
    if b.params.len() == 0 {
        a
    } else if a.params.len() == 0 {
        b
    } else {
        Clause {
            pieces: a.pieces + seq![Piece::Words(sep)] + b.pieces,
            params: a.params + b.params,
        }
    }
}

/// The conditions of several criteria with a word between them.
pub open spec fn joined_clauses(
    children: Seq<Predicate>,
    sep: Seq<char>,
    target: Target,
    base: nat,
) -> Clause
    decreases children,
{
    if children.len() == 0 {
        no_clause()
    } else {
        let before = joined_clauses(
            children.subrange(0, children.len() - 1),
            sep,
            target,
            base,
        );
        let own = clause(
            children[children.len() - 1],
            target,
            place(base + before.params.len()),
        );
        beside(before, sep, own)
    }
}

// ── Building ─────────────────────────────────────────────────────────────

/// A condition as text, with its parameters.
#[derive(Debug)]
pub struct WhereClause {
    pub sql: String,
    pub params: Vec<SqlValue>,
}

impl WhereClause {
    /// Whether this is the given condition.
    pub open spec fn is(self, c: Clause) -> bool {
        self.sql@ == rendered(c.pieces) && cells(self.params@) == c.params
    }

    pub fn is_empty(&self) -> (r: bool)
        ensures
            r == (self.params@.len() == 0),
    {
        self.params.len() == 0
    }
}

pub proof fn lemma_rendered_concat(a: Seq<Piece>, b: Seq<Piece>)
    ensures
        rendered(a + b) == rendered(a) + rendered(b),
    decreases b.len(),
{
    if b.len() == 0 {
        assert(a + b =~= a);
        assert(rendered(a) + rendered(b) =~= rendered(a));
    } else {
        lemma_rendered_concat(a, b.drop_last());
        assert((a + b).drop_last() =~= a + b.drop_last());
        assert((a + b).last() == b.last());
        assert(rendered(a + b) =~= rendered(a) + rendered(b));
    }
}

proof fn lemma_rendered_one(p: Piece)
    ensures
        rendered(seq![p]) == piece_text(p),
{
    reveal_with_fuel(rendered, 2);
    assert(seq![p].drop_last() =~= Seq::empty());
    assert(seq![p].last() == p);
    assert(rendered(seq![p]) =~= piece_text(p));
}

proof fn lemma_rendered_three(a: Piece, b: Piece, c: Piece)
    ensures
        rendered(seq![a, b, c]) == piece_text(a) + piece_text(b) + piece_text(c),
{
    lemma_rendered_one(a);
    assert(seq![a, b].drop_last() =~= seq![a]);
    assert(seq![a, b].last() == b);
    assert(seq![a, b, c].drop_last() =~= seq![a, b]);
    assert(seq![a, b, c].last() == c);
    assert(rendered(seq![a, b]) == piece_text(a) + piece_text(b));
}

proof fn lemma_rendered_in_brackets(pieces: Seq<Piece>)
    ensures
        rendered(in_brackets(pieces)) == "("@ + rendered(pieces) + ")"@,
{
    let open = seq![Piece::Words("("@)];
    let close = seq![Piece::Words(")"@)];
    lemma_rendered_one(Piece::Words("("@));
    lemma_rendered_one(Piece::Words(")"@));
    lemma_rendered_concat(open, pieces);
    lemma_rendered_concat(open + pieces, close);
}

proof fn lemma_rendered_beside(a: Clause, sep: Seq<char>, b: Clause)
    requires
        a.params.len() > 0,
        b.params.len() > 0,
    ensures
        rendered(beside(a, sep, b).pieces) == rendered(a.pieces) + sep + rendered(b.pieces),
{
    let word = seq![Piece::Words(sep)];
    lemma_rendered_one(Piece::Words(sep));
    lemma_rendered_concat(a.pieces, word);
    lemma_rendered_concat(a.pieces + word, b.pieces);
}

pub fn like_pattern(value: &str) -> (r: String)
    ensures
        r@ == like(value@),
{
    text::cat3("%", value, "%")
}

fn empty_clause() -> (r: WhereClause)
    ensures
        r.is(no_clause()),
{
    let sql = text::owned("");
    proof {
        reveal_strlit("");
    }
    let params: Vec<SqlValue> = Vec::new();
    assert(cells(params@) =~= Seq::empty());
    assert(sql@ =~= rendered(Seq::empty()));
    WhereClause { sql, params }
}

fn either_text(templates: &Vec<Template>, n: u64) -> (r: String)
    ensures
        r@ == rendered(either(templates_view(templates@), n as nat)),
{
    let ghost all = templates_view(templates@);
    let number = text::cat("?", text::number_text(n).as_str());
    let mut out = text::owned("");
    let mut i: usize = 0;
    proof {
        reveal_strlit("");
    }
    assert(out@ =~= rendered(either(all.take(0), n as nat)));
    while i < templates.len()
        invariant
            i <= templates@.len(),
            all == templates_view(templates@),
            number@ == "?"@ + decimal(n as nat),
            out@ == rendered(either(all.take(i as int), n as nat)),
            i == 0 ==> out@.len() == 0,
        decreases templates@.len() - i,
    {
        let t = &templates[i];
        let own = text::cat3(t.before, number.as_str(), t.after);
        proof {
            let now = all.take(i + 1);
            assert(now.drop_last() =~= all.take(i as int));
            assert(now.last() == all[i as int]);
            let a = Piece::Words(t.before@);
            let b = Piece::Place(n as nat);
            let c = Piece::Words(t.after@);
            let own_pieces = seq![a, b, c];
            lemma_rendered_three(a, b, c);
            assert(own@ == rendered(own_pieces));
            let or = seq![Piece::Words(" OR "@)];
            let before = either(all.take(i as int), n as nat);
            lemma_rendered_one(Piece::Words(" OR "@));
            lemma_rendered_concat(before, or);
            lemma_rendered_concat(before + or, own_pieces);
        }
        if i == 0 {
            out = own;
        } else {
            out = text::cat3(out.as_str(), " OR ", own.as_str());
        }
        i = i + 1;
    }
    assert(all.take(i as int) =~= all);
    out
}

/// The next number after `base`.
pub fn next_place(base: u64) -> (r: u64)
    ensures
        r == place((base + 1) as nat),
{
    if base < u64::MAX {
        base + 1
    } else {
        base
    }
}

fn leaf_clause(
    target: Target,
    prop: Property,
    value: &String,
    role: &Option<String>,
    base: u64,
) -> (r: WhereClause)
    ensures
        r.is(leaf(target, prop, value@, opt_text(*role), base as nat)),
{
    let templates = templates_for(target, prop, role);
    let ghost all = templates_view(templates@);
    assert(all.len() == templates@.len());
    if templates.len() == 0 {
        return empty_clause();
    }
    let norm = for_search(value.as_str());
    let params = vec![SqlValue::Text(like_pattern(norm.as_str()))];
    assert(cells(params@) =~= seq![Cell::Text(like(search_form(value@)))]);
    let own = either_text(&templates, next_place(base));
    if templates.len() == 1 {
        WhereClause { sql: own, params }
    } else {
        proof {
            lemma_rendered_in_brackets(either(all, place((base + 1) as nat)));
        }
        WhereClause { sql: text::cat3("(", own.as_str(), ")"), params }
    }
}

/// The condition of criteria on the target.
pub fn walk(p: &Predicate, target: Target, base: u64) -> (r: WhereClause)
    ensures
        r.is(clause(*p, target, base as nat)),
    decreases p,
{
    match p {
        Predicate::Contains { prop, value, role } => leaf_clause(target, *prop, value, role, base),
        Predicate::And(children) => {
            let all = emit_join(children, " AND ", target, base);
            bracketed(
                all,
                Ghost(joined_clauses(children@, " AND "@, target, base as nat)),
            )
        },
        Predicate::Or(children) => {
            let all = emit_join(children, " OR ", target, base);
            bracketed(all, Ghost(joined_clauses(children@, " OR "@, target, base as nat)))
        },
        Predicate::DerivedFrom(_) => empty_clause(),
        Predicate::True => empty_clause(),
    }
}

fn bracketed(all: WhereClause, Ghost(c): Ghost<Clause>) -> (r: WhereClause)
    requires
        all.is(c),
    ensures
        r.is(
            if c.params.len() == 0 {
                no_clause()
            } else {
                Clause { pieces: in_brackets(c.pieces), params: c.params }
            },
        ),
{
    assert(cells(all.params@).len() == all.params@.len());
    if all.is_empty() {
        return empty_clause();
    }
    proof {
        lemma_rendered_in_brackets(c.pieces);
    }
    WhereClause { sql: text::cat3("(", all.sql.as_str(), ")"), params: all.params }
}

fn emit_join(children: &Vec<Predicate>, sep: &str, target: Target, base: u64) -> (r: WhereClause)
    ensures
        r.is(joined_clauses(children@, sep@, target, base as nat)),
    decreases children@,
{
    let mut out = empty_clause();
    let mut i: usize = 0;
    assert(children@.subrange(0, 0) =~= Seq::empty());
    while i < children.len()
        invariant
            i <= children@.len(),
            out.is(joined_clauses(children@.subrange(0, i as int), sep@, target, base as nat)),
        decreases children@.len() - i,
    {
        let ghost before = joined_clauses(
            children@.subrange(0, i as int),
            sep@,
            target,
            base as nat,
        );
        let n: usize = out.params.len();
        assert(cells(out.params@).len() == n);
        let from: u64 = if n as u64 <= u64::MAX - base { base + n as u64 } else { u64::MAX };
        assert(from == place((base + before.params.len()) as nat));
        let own = walk(&children[i], target, from);
        let ghost mine = clause(children@[i as int], target, from as nat);
        assert(cells(own.params@).len() == own.params@.len());
        proof {
            let now = children@.subrange(0, i + 1);
            assert(now.subrange(0, now.len() - 1) =~= children@.subrange(0, i as int));
            assert(now[now.len() - 1] == children@[i as int]);
            assert(joined_clauses(now, sep@, target, base as nat) == beside(before, sep@, mine));
        }
        if !own.is_empty() {
            if out.is_empty() {
                out = own;
            } else {
                proof {
                    lemma_rendered_beside(before, sep@, mine);
                }
                let mut own = own;
                let ghost first = out.params@;
                let ghost second = own.params@;
                let mut params = out.params;
                params.append(&mut own.params);
                assert(params@ =~= first + second);
                assert(cells(params@) =~= cells(first) + cells(second));
                out = WhereClause { sql: text::cat3(out.sql.as_str(), sep, own.sql.as_str()), params };
            }
        }
        i = i + 1;
    }
    assert(children@.subrange(0, i as int) =~= children@);
    out
}

// ── Places and parameters ────────────────────────────────────────────────

/// Whether the places in a condition are those after the first `base`, one for each
/// parameter and no others.
pub open spec fn places_match(c: Clause, base: nat) -> bool {
    &&& forall|i: int|
        0 <= i < c.pieces.len() ==> (#[trigger] c.pieces[i] matches Piece::Place(n) ==> base < n
            <= base + c.params.len())
    &&& forall|n: nat|
        base < n <= base + c.params.len() ==> #[trigger] c.pieces.contains(Piece::Place(n))
}

proof fn lemma_either_places(templates: Seq<TemplateView>, n: nat)
    requires
        templates.len() > 0,
    ensures
        forall|i: int|
            0 <= i < either(templates, n).len() ==> (#[trigger] either(
                templates,
                n,
            )[i] matches Piece::Place(m) ==> m == n),
        either(templates, n).contains(Piece::Place(n)),
    decreases templates.len(),
{
    let t = templates.last();
    let front = templates.drop_last();
    let own = seq![Piece::Words(t.before), Piece::Place(n), Piece::Words(t.after)];
    let all = either(templates, n);
    if front.len() == 0 {
        assert(all[1] == Piece::Place(n));
    } else {
        lemma_either_places(front, n);
        let before = either(front, n);
        assert(all[before.len() as int + 2] == Piece::Place(n));
        assert forall|i: int| 0 <= i < all.len() implies (#[trigger] all[i] matches Piece::Place(m)
            ==> m == n) by {
            if i < before.len() {
                assert(all[i] == before[i]);
            } else if i > before.len() {
                assert(all[i] == own[i - before.len() - 1]);
            }
        }
    }
}

proof fn lemma_in_brackets_places(c: Clause, base: nat)
    requires
        places_match(c, base),
    ensures
        places_match(Clause { pieces: in_brackets(c.pieces), params: c.params }, base),
{
    let all = in_brackets(c.pieces);
    assert forall|i: int| 0 <= i < all.len() implies (#[trigger] all[i] matches Piece::Place(n)
        ==> base < n <= base + c.params.len()) by {
        if 0 < i <= c.pieces.len() {
            assert(all[i] == c.pieces[i - 1]);
        }
    }
    assert forall|n: nat| base < n <= base + c.params.len() implies #[trigger] all.contains(
        Piece::Place(n),
    ) by {
        let k = c.pieces.lemma_contains_to_index(Piece::Place(n));
        assert(all[k + 1] == Piece::Place(n));
    }
}

/// Every place in a condition has its parameter, and every parameter its place, as
/// long as there are enough numbers.
pub proof fn every_place_has_its_parameter(p: Predicate, target: Target, base: nat)
    requires
        base + clause(p, target, base).params.len() <= u64::MAX,
    ensures
        places_match(clause(p, target, base), base),
    decreases p,
{
    match p {
        Predicate::Contains { prop, value, role } => {
            let templates = comparisons(target, prop, opt_text(role));
            if templates.len() > 0 {
                let n = place(base + 1);
                let own = Clause {
                    pieces: either(templates, n),
                    params: seq![Cell::Text(like(search_form(value@)))],
                };
                lemma_either_places(templates, n);
                assert(places_match(own, base));
                if templates.len() > 1 {
                    lemma_in_brackets_places(own, base);
                }
            }
        },
        Predicate::And(children) => {
            let all = joined_clauses(children@, " AND "@, target, base);
            if all.params.len() > 0 {
                lemma_joined_places(children@, " AND "@, target, base);
                lemma_in_brackets_places(all, base);
            }
        },
        Predicate::Or(children) => {
            let all = joined_clauses(children@, " OR "@, target, base);
            if all.params.len() > 0 {
                lemma_joined_places(children@, " OR "@, target, base);
                lemma_in_brackets_places(all, base);
            }
        },
        Predicate::DerivedFrom(_) => {},
        Predicate::True => {},
    }
}

proof fn lemma_joined_places(children: Seq<Predicate>, sep: Seq<char>, target: Target, base: nat)
    requires
        base + joined_clauses(children, sep, target, base).params.len() <= u64::MAX,
    ensures
        places_match(joined_clauses(children, sep, target, base), base),
    decreases children,
{
    if children.len() > 0 {
        let front = children.subrange(0, children.len() - 1);
        let before = joined_clauses(front, sep, target, base);
        let from = place(base + before.params.len());
        let own = clause(children[children.len() - 1], target, from);
        let all = beside(before, sep, own);
        lemma_joined_places(front, sep, target, base);
        every_place_has_its_parameter(children[children.len() - 1], target, from);
        lemma_no_params_no_pieces(front, sep, target, base);
        if own.params.len() > 0 && before.params.len() > 0 {
            assert forall|i: int| 0 <= i < all.pieces.len() implies (
            #[trigger] all.pieces[i] matches Piece::Place(n) ==> base < n <= base
                + all.params.len()) by {
                if i < before.pieces.len() {
                    assert(all.pieces[i] == before.pieces[i]);
                } else if i > before.pieces.len() {
                    assert(all.pieces[i] == own.pieces[i - before.pieces.len() - 1]);
                }
            }
            assert forall|n: nat|
                base < n <= base + all.params.len() implies #[trigger] all.pieces.contains(
                Piece::Place(n),
            ) by {
                if n <= base + before.params.len() {
                    let k = before.pieces.lemma_contains_to_index(Piece::Place(n));
                    assert(all.pieces[k] == Piece::Place(n));
                } else {
                    let k = own.pieces.lemma_contains_to_index(Piece::Place(n));
                    assert(all.pieces[before.pieces.len() + 1 + k] == Piece::Place(n));
                }
            }
        }
    }
}

proof fn lemma_no_params_no_pieces(
    children: Seq<Predicate>,
    sep: Seq<char>,
    target: Target,
    base: nat,
)
    ensures
        joined_clauses(children, sep, target, base).params.len() == 0 ==> joined_clauses(
            children,
            sep,
            target,
            base,
        ) == no_clause(),
    decreases children,
{
    if children.len() > 0 {
        lemma_no_params_no_pieces(children.subrange(0, children.len() - 1), sep, target, base);
    }
}

// ── Texts ────────────────────────────────────────────────────────────────

proof fn lemma_two_joined(children: Seq<Predicate>, sep: Seq<char>, target: Target, base: nat)
    requires
        children.len() == 2,
        base + clause(children[0], target, base).params.len() <= u64::MAX,
    ensures
        ({
            let a = clause(children[0], target, base);
            let b = clause(children[1], target, base + a.params.len());
            joined_clauses(children, sep, target, base) == beside(a, sep, b)
        }),
{
    let one = children.subrange(0, 1);
    let none = one.subrange(0, 0);
    assert(children.subrange(0, children.len() - 1) == one);
    assert(one.subrange(0, one.len() - 1) == none);
    assert(joined_clauses(none, sep, target, base) == no_clause());
    let a = clause(children[0], target, base);
    assert(place(base) == base);
    lemma_clause_without_params(children[0], target, base);
    assert(joined_clauses(one, sep, target, base) == beside(no_clause(), sep, a));
    assert(joined_clauses(one, sep, target, base) == a);
}

proof fn lemma_clause_without_params(p: Predicate, target: Target, base: nat)
    ensures
        clause(p, target, base).params.len() == 0 ==> clause(p, target, base) == no_clause(),
{
}

/// The condition of two criteria joined by `and` is that of the first, `AND` and that of
/// the second, in brackets; one that asks nothing is left out.
pub proof fn both_conditions_stand_beside_and(
    p: &Predicate,
    a: &Predicate,
    b: &Predicate,
    target: Target,
    base: u64,
    r: WhereClause,
    ra: WhereClause,
    rb: WhereClause,
)
    requires
        *p matches Predicate::And(children) && children@ == seq![*a, *b],
        base + ra.params@.len() <= u64::MAX,
        call_ensures(walk, (p, target, base), r),
        call_ensures(walk, (a, target, base), ra),
        call_ensures(walk, (b, target, (base + ra.params@.len()) as u64), rb),
    ensures
        cells(r.params@) == cells(ra.params@) + cells(rb.params@),
        ra.params@.len() > 0 && rb.params@.len() > 0 ==> r.sql@ == "("@ + ra.sql@ + " AND "@
            + rb.sql@ + ")"@,
        ra.params@.len() > 0 && rb.params@.len() == 0 ==> r.sql@ == "("@ + ra.sql@ + ")"@,
        ra.params@.len() == 0 && rb.params@.len() > 0 ==> r.sql@ == "("@ + rb.sql@ + ")"@,
{
    let children = p->And_0@;
    let ca = clause(*a, target, base as nat);
    let cb = clause(*b, target, (base + ra.params@.len()) as nat);
    assert(cells(ra.params@).len() == ra.params@.len());
    assert(cells(rb.params@).len() == rb.params@.len());
    lemma_two_joined(children, " AND "@, target, base as nat);
    let all = joined_clauses(children, " AND "@, target, base as nat);
    assert(all == beside(ca, " AND "@, cb));
    assert(all.params =~= ca.params + cb.params);
    assert(cells(r.params@) =~= ca.params + cb.params);
    lemma_rendered_in_brackets(all.pieces);
    if ca.params.len() > 0 && cb.params.len() > 0 {
        lemma_rendered_beside(ca, " AND "@, cb);
        assert(r.sql@ =~= "("@ + ra.sql@ + " AND "@ + rb.sql@ + ")"@);
    }
}

/// The condition of two criteria joined by `or` is that of the first, `OR` and that of the
/// second, in brackets; one that asks nothing is left out.
pub proof fn both_conditions_stand_beside_or(
    p: &Predicate,
    a: &Predicate,
    b: &Predicate,
    target: Target,
    base: u64,
    r: WhereClause,
    ra: WhereClause,
    rb: WhereClause,
)
    requires
        *p matches Predicate::Or(children) && children@ == seq![*a, *b],
        base + ra.params@.len() <= u64::MAX,
        call_ensures(walk, (p, target, base), r),
        call_ensures(walk, (a, target, base), ra),
        call_ensures(walk, (b, target, (base + ra.params@.len()) as u64), rb),
    ensures
        cells(r.params@) == cells(ra.params@) + cells(rb.params@),
        ra.params@.len() > 0 && rb.params@.len() > 0 ==> r.sql@ == "("@ + ra.sql@ + " OR "@
            + rb.sql@ + ")"@,
        ra.params@.len() > 0 && rb.params@.len() == 0 ==> r.sql@ == "("@ + ra.sql@ + ")"@,
        ra.params@.len() == 0 && rb.params@.len() > 0 ==> r.sql@ == "("@ + rb.sql@ + ")"@,
{
    let children = p->Or_0@;
    let ca = clause(*a, target, base as nat);
    let cb = clause(*b, target, (base + ra.params@.len()) as nat);
    assert(cells(ra.params@).len() == ra.params@.len());
    assert(cells(rb.params@).len() == rb.params@.len());
    lemma_two_joined(children, " OR "@, target, base as nat);
    let all = joined_clauses(children, " OR "@, target, base as nat);
    assert(all == beside(ca, " OR "@, cb));
    assert(all.params =~= ca.params + cb.params);
    assert(cells(r.params@) =~= ca.params + cb.params);
    lemma_rendered_in_brackets(all.pieces);
    if ca.params.len() > 0 && cb.params.len() > 0 {
        lemma_rendered_beside(ca, " OR "@, cb);
        assert(r.sql@ =~= "("@ + ra.sql@ + " OR "@ + rb.sql@ + ")"@);
    }
}

/// A comparison reads as the column, `LIKE` and the place of its one parameter, which is
/// the value's search form between percent signs.
pub proof fn comparisons_name_their_column(
    p: &Predicate,
    target: Target,
    base: u64,
    r: WhereClause,
)
    requires
        call_ensures(walk, (p, target, base), r),
        *p is Contains,
        base < u64::MAX,
    ensures
        ({
            let prop = p->prop;
            let role = opt_text(p->role);
            let at = "?"@ + decimal((base + 1) as nat);
            let skipped = match target {
                Target::Tracks => false,
                Target::Albums => prop is Genre,
                _ => prop is Album || prop is Genre,
            };
            &&& !skipped ==> cells(r.params@) == seq![
                Cell::Text("%"@ + search_form(p->value@) + "%"@),
            ]
            &&& skipped ==> r.params@.len() == 0 && r.sql@.len() == 0
            &&& target is Tracks && prop is Title ==> r.sql@ == "t.title_norm LIKE "@ + at
            &&& target is Tracks && prop is Album ==> r.sql@ == "a.album_norm LIKE "@ + at
            &&& target is Tracks && prop is Genre ==> r.sql@ == "t.genre_norm LIKE "@ + at
            &&& target is Tracks && prop is Artist ==> r.sql@ == (if role == Some("Composer"@) {
                "t.composer_norm LIKE "@
            } else if role == Some("Conductor"@) {
                "t.conductor_norm LIKE "@
            } else if role == Some("Performer"@) {
                "t.performer_norm LIKE "@
            } else {
                "t.artist_norm LIKE "@
            }) + at
            &&& target is Albums && prop is Album ==> r.sql@ == "album_norm LIKE "@ + at
            &&& target is Albums && prop is Artist ==> r.sql@ == "effective_album_artist_norm LIKE "@
                + at
            &&& target is Albums && prop is Title ==> r.sql@ == "("@ + ("album_norm LIKE "@ + at
                + " OR "@ + ("effective_album_artist_norm LIKE "@ + at) + " OR "@ + (
            "EXISTS (SELECT 1 FROM tracks WHERE album_id = albums.id AND artist_norm LIKE "@ + at
                + ")"@)) + ")"@
            &&& target is AlbumArtists && !skipped ==> r.sql@ == "effective_album_artist_norm LIKE "@
                + at
            &&& target is TrackArtists && !skipped ==> r.sql@ == "artist_norm LIKE "@ + at
            &&& target is Composers && !skipped ==> r.sql@ == "composer_norm LIKE "@ + at
            &&& target is Conductors && !skipped ==> r.sql@ == "conductor_norm LIKE "@ + at
            &&& target is Performers && !skipped ==> r.sql@ == "performer_norm LIKE "@ + at
        }),
{
    let prop = p->prop;
    let role = opt_text(p->role);
    let n = (base + 1) as nat;
    let at = "?"@ + decimal(n);
    let all = comparisons(target, prop, role);
    let c = clause(*p, target, base as nat);
    assert(cells(r.params@).len() == r.params@.len());
    reveal_strlit("");
    if all.len() == 1 {
        let t = all[0];
        lemma_rendered_three(Piece::Words(t.before), Piece::Place(n), Piece::Words(t.after));
        assert(c.pieces == either(all, n));
        assert(r.sql@ =~= t.before + at);
    } else if all.len() == 3 {
        let (t, u, v) = (all[0], all[1], all[2]);
        let or = seq![Piece::Words(" OR "@)];
        let own_t = seq![Piece::Words(t.before), Piece::Place(n), Piece::Words(t.after)];
        let own_u = seq![Piece::Words(u.before), Piece::Place(n), Piece::Words(u.after)];
        let own_v = seq![Piece::Words(v.before), Piece::Place(n), Piece::Words(v.after)];
        assert(all.drop_last() =~= seq![t, u]);
        assert(seq![t, u].drop_last() =~= seq![t]);
        assert(either(seq![t], n) == own_t);
        assert(either(seq![t, u], n) == own_t + or + own_u);
        assert(either(all, n) == own_t + or + own_u + or + own_v);
        lemma_rendered_three(Piece::Words(t.before), Piece::Place(n), Piece::Words(t.after));
        lemma_rendered_three(Piece::Words(u.before), Piece::Place(n), Piece::Words(u.after));
        lemma_rendered_three(Piece::Words(v.before), Piece::Place(n), Piece::Words(v.after));
        lemma_rendered_one(Piece::Words(" OR "@));
        lemma_rendered_concat(own_t, or);
        lemma_rendered_concat(own_t + or, own_u);
        lemma_rendered_concat(own_t + or + own_u, or);
        lemma_rendered_concat(own_t + or + own_u + or, own_v);
        lemma_rendered_in_brackets(either(all, n));
        assert(r.sql@ =~= "("@ + ("album_norm LIKE "@ + at + " OR "@ + (
        "effective_album_artist_norm LIKE "@ + at) + " OR "@ + (
        "EXISTS (SELECT 1 FROM tracks WHERE album_id = albums.id AND artist_norm LIKE "@ + at
            + ")"@)) + ")"@);
    }
}

} // verus!
