//! What conditions mean.
//!
//! A condition is read from left to right against a row, as the database reads it:
//! comparisons, `AND`, `OR` and brackets, `AND` before `OR`.

use vstd::prelude::*;

use crate::browse::criteria::{
    beside, clause, comparisons, either, in_brackets, joined_clauses, like, place, rendered, walk,
    Piece, Target, TemplateView, WhereClause,
};
use crate::db::query::{cells, Cell};
use crate::normalize::search_form;
use crate::text::{has_part, lower, lowered, opt_text, starts_with};
use crate::upnp::search::{Predicate, Property};

verus! {

// ── Patterns ─────────────────────────────────────────────────────────────

/// Whether a text is like a pattern: a percent sign stands for any characters, an
/// underscore for any one, and small letters and capitals are the same.
pub open spec fn is_like(pattern: Seq<char>, s: Seq<char>) -> bool
    decreases pattern.len() + s.len(),
{
    if pattern.len() == 0 {
        s.len() == 0
    } else if pattern[0] == '%' {
        is_like(pattern.skip(1), s) || (s.len() > 0 && is_like(pattern, s.skip(1)))
    } else if s.len() == 0 {
        false
    } else {
        (pattern[0] == '_' || lower(pattern[0]) == lower(s[0])) && is_like(
            pattern.skip(1),
            s.skip(1),
        )
    }
}

proof fn lemma_any_text(s: Seq<char>)
    ensures
        is_like(seq!['%'], s),
    decreases s.len(),
{
    let p = seq!['%'];
    assert(p.skip(1) =~= Seq::empty());
    if s.len() > 0 {
        lemma_any_text(s.skip(1));
    } else {
        assert(is_like(p.skip(1), s));
    }
}

proof fn lemma_begins_like(v: Seq<char>, s: Seq<char>)
    requires
        !v.contains('%'),
        !v.contains('_'),
    ensures
        is_like(v + seq!['%'], s) <==> v.len() <= s.len() && lowered(s).take(v.len() as int)
            == lowered(v),
    decreases v.len(),
{
    let p = v + seq!['%'];
    if v.len() == 0 {
        assert(p =~= seq!['%']);
        lemma_any_text(s);
        assert(lowered(s).take(0) =~= lowered(v));
    } else {
        assert(v.contains(v[0]));
        assert(p[0] == v[0]);
        if s.len() > 0 {
            let w = v.skip(1);
            assert(p.skip(1) =~= w + seq!['%']);
            assert forall|c: char| w.contains(c) implies v.contains(c) by {
                let i = w.lemma_contains_to_index(c);
                assert(v[i + 1] == c);
            }
            lemma_begins_like(w, s.skip(1));
            let n = v.len() as int;
            if n <= s.len() {
                let a = lowered(s).take(n);
                let b = lowered(v);
                assert(lowered(s.skip(1)).take(n - 1) =~= a.skip(1));
                assert(lowered(w) =~= b.skip(1));
                if a.skip(1) == b.skip(1) && a[0] == b[0] {
                    assert(a =~= seq![a[0]] + a.skip(1));
                    assert(b =~= seq![b[0]] + b.skip(1));
                }
            }
        }
    }
}

/// A text is like a value between percent signs exactly where the value is a part of it,
/// whatever the case of its letters, as long as the value has no sign that stands for
/// others.
pub proof fn values_are_found_as_parts(v: Seq<char>, s: Seq<char>)
    requires
        !v.contains('%'),
        !v.contains('_'),
    ensures
        is_like("%"@ + v + "%"@, s) <==> has_part(lowered(s), lowered(v)),
    decreases s.len(),
{
    reveal_strlit("%");
    assert("%"@ =~= seq!['%']);
    let p = "%"@ + v + "%"@;
    assert(p.skip(1) =~= v + seq!['%']);
    lemma_begins_like(v, s);
    let all = lowered(s);
    let part = lowered(v);
    if is_like(p.skip(1), s) {
        assert(all.subrange(0int, 0int + part.len()) =~= part);
    }
    if s.len() > 0 {
        let t = s.skip(1);
        values_are_found_as_parts(v, t);
        if has_part(lowered(t), part) {
            let i = choose|i: int|
                0 <= i <= lowered(t).len() - part.len() && #[trigger] lowered(t).subrange(
                    i,
                    i + part.len(),
                ) == part;
            assert(all.subrange(i + 1, i + 1 + part.len()) =~= part);
        }
        if has_part(all, part) {
            let i = choose|i: int|
                0 <= i <= all.len() - part.len() && #[trigger] all.subrange(i, i + part.len())
                    == part;
            if i == 0 {
                assert(all.take(part.len() as int) =~= part);
            } else {
                assert(lowered(t).subrange(i - 1, i - 1 + part.len()) =~= part);
            }
        }
    } else if has_part(all, part) {
        assert(v.len() == 0);
        assert(all.take(0) =~= part);
    }
}

// ── Rows ─────────────────────────────────────────────────────────────────

/// A row: what it has to compare with behind given words. An album has as many artists
/// of tracks as its tracks have, anything else one text at most.
pub type RowView = spec_fn(Seq<char>) -> Set<Seq<char>>;

/// Whether the row has a text that contains the value, where the words say.
pub open spec fn has_value(row: RowView, words: Seq<char>, value: Seq<char>) -> bool {
    exists|v: Seq<char>| #[trigger] row(words).contains(v) && is_like("%"@ + value + "%"@, v)
}

/// Whether the row has a text like the parameter, where the words say.
pub open spec fn compares(row: RowView, words: Seq<char>, param: Cell) -> bool {
    param matches Cell::Text(p) && exists|v: Seq<char>| #[trigger] row(words).contains(v) && is_like(p, v)
}

// ── Reading ──────────────────────────────────────────────────────────────

/// What was read between two brackets so far: whether an alternative before the last
/// `OR` holds, and whether all that stands behind it holds.
pub struct Frame {
    pub some: bool,
    pub all: bool,
}

pub open spec fn fresh() -> Frame {
    Frame { some: false, all: true }
}

/// What was read so far: the open brackets, and what is compared next.
pub struct Reading {
    pub frames: Seq<Frame>,
    pub words: Seq<char>,
}

/// One more condition that has to hold with the others.
pub open spec fn fed(frames: Seq<Frame>, holds: bool) -> Seq<Frame> {
    let top = frames.last();
    frames.drop_last().push(Frame { some: top.some, all: top.all && holds })
}

/// Read a piece.
pub open spec fn read(at: Reading, piece: Piece, params: Seq<Cell>, row: RowView) -> Reading {
    match piece {
        Piece::Place(n) => Reading {
            frames: fed(at.frames, compares(row, at.words, params[n - 1])),
            words: at.words,
        },
        Piece::Words(w) => if w == ""@ || w == " AND "@ {
            at
        } else if w == " OR "@ {
            let top = at.frames.last();
            Reading {
                frames: at.frames.drop_last().push(Frame { some: top.some || top.all, all: true }),
                words: at.words,
            }
        } else if w == "("@ {
            Reading { frames: at.frames.push(fresh()), words: at.words }
        } else if w == ")"@ {
            let top = at.frames.last();
            Reading { frames: fed(at.frames.drop_last(), top.some || top.all), words: at.words }
        } else if starts_with(w, "EXISTS ("@) {
            Reading { frames: at.frames.push(fresh()), words: w }
        } else {
            Reading { frames: at.frames, words: w }
        },
    }
}

pub open spec fn read_all(at: Reading, pieces: Seq<Piece>, params: Seq<Cell>, row: RowView) -> Reading
    decreases pieces.len(),
{
    if pieces.len() == 0 {
        at
    } else {
        read(read_all(at, pieces.drop_last(), params, row), pieces.last(), params, row)
    }
}

/// Whether a condition holds of a row.
pub open spec fn holds_of(pieces: Seq<Piece>, params: Seq<Cell>, row: RowView) -> bool {
    let end = read_all(Reading { frames: seq![fresh()], words: Seq::empty() }, pieces, params, row);
    end.frames.len() == 1 && (end.frames[0].some || end.frames[0].all)
}

// ── Criteria ─────────────────────────────────────────────────────────────

/// Whether a property is one that what is searched has.
pub open spec fn has_property(target: Target, prop: Property) -> bool {
    match target {
        Target::Tracks => true,
        Target::Albums => !(prop is Genre),
        _ => prop is Title || prop is Artist,
    }
}

/// Whether criteria ask something of what is searched.
pub open spec fn asks(p: Predicate, target: Target) -> bool
    decreases p,
{
    match p {
        Predicate::Contains { prop, value, role } => has_property(target, prop),
        Predicate::And(children) => any_asks(children@, target),
        Predicate::Or(children) => any_asks(children@, target),
        _ => false,
    }
}

pub open spec fn any_asks(children: Seq<Predicate>, target: Target) -> bool
    decreases children,
{
    children.len() > 0 && (any_asks(children.subrange(0, children.len() - 1), target) || asks(
        children[children.len() - 1],
        target,
    ))
}

/// Whether a row has the value as the given property.
pub open spec fn has_it(
    row: RowView,
    target: Target,
    prop: Property,
    role: Option<Seq<char>>,
    value: Seq<char>,
) -> bool {
    match target {
        Target::Albums => match prop {
            Property::Title => {
                ||| has_value(row, "album_norm LIKE "@, value)
                ||| has_value(row, "effective_album_artist_norm LIKE "@, value)
                ||| has_value(
                    row,
                    "EXISTS (SELECT 1 FROM tracks WHERE album_id = albums.id AND artist_norm LIKE "@,
                    value,
                )
            },
            Property::Album => has_value(row, "album_norm LIKE "@, value),
            Property::Artist => has_value(row, "effective_album_artist_norm LIKE "@, value),
            Property::Genre => false,
        },
        Target::Tracks => match prop {
            Property::Title => has_value(row, "t.title_norm LIKE "@, value),
            Property::Album => has_value(row, "a.album_norm LIKE "@, value),
            Property::Genre => has_value(row, "t.genre_norm LIKE "@, value),
            Property::Artist => if role == Some("Composer"@) {
                has_value(row, "t.composer_norm LIKE "@, value)
            } else if role == Some("Conductor"@) {
                has_value(row, "t.conductor_norm LIKE "@, value)
            } else if role == Some("Performer"@) {
                has_value(row, "t.performer_norm LIKE "@, value)
            } else {
                has_value(row, "t.artist_norm LIKE "@, value)
            },
        },
        Target::AlbumArtists => has_value(row, "effective_album_artist_norm LIKE "@, value),
        Target::TrackArtists => has_value(row, "artist_norm LIKE "@, value),
        Target::Composers => has_value(row, "composer_norm LIKE "@, value),
        Target::Conductors => has_value(row, "conductor_norm LIKE "@, value),
        Target::Performers => has_value(row, "performer_norm LIKE "@, value),
    }
}

/// Whether a row meets criteria. What asks nothing of it does not count.
pub open spec fn meets(row: RowView, target: Target, p: Predicate) -> bool
    decreases p,
{
    match p {
        Predicate::Contains { prop, value, role } => has_it(
            row,
            target,
            prop,
            opt_text(role),
            search_form(value@),
        ),
        Predicate::And(children) => meets_all(row, target, children@),
        Predicate::Or(children) => meets_any(row, target, children@),
        _ => true,
    }
}

/// Whether a row meets each of the criteria that ask something of it.
pub open spec fn meets_all(row: RowView, target: Target, children: Seq<Predicate>) -> bool
    decreases children,
{
    children.len() == 0 || (meets_all(row, target, children.subrange(0, children.len() - 1)) && (
    asks(children[children.len() - 1], target) ==> meets(
        row,
        target,
        children[children.len() - 1],
    )))
}

/// Whether a row meets one of the criteria that ask something of it.
pub open spec fn meets_any(row: RowView, target: Target, children: Seq<Predicate>) -> bool
    decreases children,
{
    children.len() > 0 && (meets_any(row, target, children.subrange(0, children.len() - 1)) || (
    asks(children[children.len() - 1], target) && meets(row, target, children[children.len() - 1])))
}

// ── Proofs ───────────────────────────────────────────────────────────────

proof fn lemma_read_concat(
    at: Reading,
    a: Seq<Piece>,
    b: Seq<Piece>,
    params: Seq<Cell>,
    row: RowView,
)
    ensures
        read_all(at, a + b, params, row) == read_all(read_all(at, a, params, row), b, params, row),
    decreases b.len(),
{
    if b.len() == 0 {
        assert(a + b =~= a);
    } else {
        lemma_read_concat(at, a, b.drop_last(), params, row);
        assert((a + b).drop_last() =~= a + b.drop_last());
        assert((a + b).last() == b.last());
    }
}

proof fn lemma_read_one(at: Reading, piece: Piece, params: Seq<Cell>, row: RowView)
    ensures
        read_all(at, seq![piece], params, row) == read(at, piece, params, row),
{
    reveal_with_fuel(read_all, 2);
    assert(seq![piece].drop_last() =~= Seq::empty());
}

proof fn lemma_words()
    ensures
        ""@ != " AND "@,
        ""@ != " OR "@,
        ""@ != "("@,
        ""@ != ")"@,
        " AND "@ != " OR "@,
        " AND "@ != "("@,
        " AND "@ != ")"@,
        " OR "@ != "("@,
        " OR "@ != ")"@,
        "("@ != ")"@,
{
    reveal_strlit("");
    reveal_strlit(" AND ");
    reveal_strlit(" OR ");
    reveal_strlit("(");
    reveal_strlit(")");
    assert(""@.len() == 0 && " AND "@.len() == 5 && " OR "@.len() == 4 && "("@.len() == 1
        && ")"@.len() == 1);
    assert("("@[0] != ")"@[0]);
}

/// Whether words are longer than any that joins conditions: then they name what is
/// compared.
spec fn names_column(w: Seq<char>) -> bool {
    w.len() > 5
}

/// A comparison reads as whether it holds.
proof fn lemma_read_comparison(
    at: Reading,
    t: TemplateView,
    n: nat,
    params: Seq<Cell>,
    row: RowView,
)
    requires
        at.frames.len() > 0,
        names_column(t.before),
        starts_with(t.before, "EXISTS ("@) ==> t.after == ")"@,
        !starts_with(t.before, "EXISTS ("@) ==> t.after == ""@,
    ensures
        read_all(
            at,
            seq![Piece::Words(t.before), Piece::Place(n), Piece::Words(t.after)],
            params,
            row,
        ).frames == fed(at.frames, compares(row, t.before, params[n - 1])),
{
    lemma_words();
    reveal_strlit(" AND ");
    reveal_strlit(" OR ");
    reveal_strlit("(");
    reveal_strlit(")");
    reveal_strlit("");
    let a = Piece::Words(t.before);
    let b = Piece::Place(n);
    let c = Piece::Words(t.after);
    let s = seq![a, b, c];
    assert(s.drop_last() =~= seq![a, b]);
    assert(seq![a, b].drop_last() =~= seq![a]);
    lemma_read_one(at, a, params, row);
    let one = read(at, a, params, row);
    let two = read(one, b, params, row);
    assert(read_all(at, seq![a, b], params, row) == two);
    let end = read(two, c, params, row);
    assert(read_all(at, s, params, row) == end);
    let v = compares(row, t.before, params[n - 1]);
    if starts_with(t.before, "EXISTS ("@) {
        assert(one.frames.drop_last() =~= at.frames);
        assert(two.frames.drop_last() =~= at.frames);
        assert(two.frames.last() == (Frame { some: false, all: v }));
    }
    assert(end.frames =~= fed(at.frames, v));
}

proof fn lemma_exists_words(w: Seq<char>)
    requires
        w.len() > 0,
        w[0] != 'E',
    ensures
        !starts_with(w, "EXISTS ("@),
{
    reveal_strlit("EXISTS (");
    if starts_with(w, "EXISTS ("@) {
        assert(w.take("EXISTS ("@.len() as int)[0] == w[0]);
    }
}

/// The comparisons of a property are words with a place behind them.
proof fn lemma_comparisons(target: Target, prop: Property, role: Option<Seq<char>>)
    ensures
        forall|i: int|
            0 <= i < comparisons(target, prop, role).len() ==> {
                let t = #[trigger] comparisons(target, prop, role)[i];
                &&& names_column(t.before)
                &&& starts_with(t.before, "EXISTS ("@) ==> t.after == ")"@
                &&& !starts_with(t.before, "EXISTS ("@) ==> t.after == ""@
            },
        comparisons(target, prop, role).len() > 0 <==> has_property(target, prop),
{
    reveal_strlit("album_norm LIKE ");
    reveal_strlit("effective_album_artist_norm LIKE ");
    reveal_strlit("EXISTS (SELECT 1 FROM tracks WHERE album_id = albums.id AND artist_norm LIKE ");
    reveal_strlit("EXISTS (");
    reveal_strlit("t.title_norm LIKE ");
    reveal_strlit("a.album_norm LIKE ");
    reveal_strlit("t.genre_norm LIKE ");
    reveal_strlit("t.composer_norm LIKE ");
    reveal_strlit("t.conductor_norm LIKE ");
    reveal_strlit("t.performer_norm LIKE ");
    reveal_strlit("t.artist_norm LIKE ");
    reveal_strlit("artist_norm LIKE ");
    reveal_strlit("composer_norm LIKE ");
    reveal_strlit("conductor_norm LIKE ");
    reveal_strlit("performer_norm LIKE ");
    let all = comparisons(target, prop, role);
    assert forall|i: int| 0 <= i < all.len() implies {
        let t = #[trigger] all[i];
        &&& names_column(t.before)
        &&& starts_with(t.before, "EXISTS ("@) ==> t.after == ")"@
        &&& !starts_with(t.before, "EXISTS ("@) ==> t.after == ""@
    } by {
        let t = all[i];
        if t.before[0] != 'E' {
            lemma_exists_words(t.before);
        } else {
            let w = "EXISTS (SELECT 1 FROM tracks WHERE album_id = albums.id AND artist_norm LIKE "@;
            assert(w.take(8) =~= "EXISTS ("@);
        }
    }
}

/// Whether any of the comparisons holds.
spec fn any_compares(row: RowView, templates: Seq<TemplateView>, param: Cell) -> bool
    decreases templates.len(),
{
    templates.len() > 0 && (any_compares(row, templates.drop_last(), param) || compares(
        row,
        templates.last().before,
        param,
    ))
}

proof fn lemma_read_either(
    at: Reading,
    templates: Seq<TemplateView>,
    n: nat,
    params: Seq<Cell>,
    row: RowView,
)
    requires
        at.frames.len() > 0,
        at.frames.last() == fresh(),
        templates.len() > 0,
        forall|i: int|
            0 <= i < templates.len() ==> {
                let t = #[trigger] templates[i];
                &&& names_column(t.before)
                &&& starts_with(t.before, "EXISTS ("@) ==> t.after == ")"@
                &&& !starts_with(t.before, "EXISTS ("@) ==> t.after == ""@
            },
    ensures
        ({
            let end = read_all(at, either(templates, n), params, row).frames;
            &&& end.len() == at.frames.len()
            &&& end.drop_last() == at.frames.drop_last()
            &&& (end.last().some || end.last().all) == any_compares(row, templates, params[n - 1])
            &&& templates.len() == 1 ==> !end.last().some
        }),
    decreases templates.len(),
{
    let t = templates.last();
    let front = templates.drop_last();
    let own = seq![Piece::Words(t.before), Piece::Place(n), Piece::Words(t.after)];
    assert(templates[templates.len() - 1] == t);
    if front.len() == 0 {
        lemma_read_comparison(at, t, n, params, row);
        assert(!any_compares(row, front, params[n - 1]));
        let end = read_all(at, own, params, row).frames;
        assert(end.drop_last() =~= at.frames.drop_last());
    } else {
        assert forall|i: int| 0 <= i < front.len() implies {
            let u = #[trigger] front[i];
            &&& names_column(u.before)
            &&& starts_with(u.before, "EXISTS ("@) ==> u.after == ")"@
            &&& !starts_with(u.before, "EXISTS ("@) ==> u.after == ""@
        } by {
            assert(front[i] == templates[i]);
        }
        lemma_read_either(at, front, n, params, row);
        let or = seq![Piece::Words(" OR "@)];
        let before = either(front, n);
        let one = read_all(at, before, params, row);
        lemma_read_concat(at, before, or, params, row);
        lemma_read_concat(at, before + or, own, params, row);
        lemma_read_one(one, Piece::Words(" OR "@), params, row);
        lemma_words();
        let two = read(one, Piece::Words(" OR "@), params, row);
        lemma_read_comparison(two, t, n, params, row);
        let end = read_all(two, own, params, row).frames;
        assert(two.frames.drop_last() =~= at.frames.drop_last());
        assert(end.drop_last() =~= at.frames.drop_last());
    }
}

/// What stands in brackets counts as one condition.
proof fn lemma_read_in_brackets(at: Reading, pieces: Seq<Piece>, params: Seq<Cell>, row: RowView)
    requires
        at.frames.len() > 0,
        ({
            let inner = Reading { frames: at.frames.push(fresh()), words: at.words };
            let end = read_all(inner, pieces, params, row).frames;
            end.len() == at.frames.len() + 1 && end.drop_last() == at.frames
        }),
    ensures
        ({
            let inner = Reading { frames: at.frames.push(fresh()), words: at.words };
            let end = read_all(inner, pieces, params, row).frames;
            read_all(at, in_brackets(pieces), params, row).frames == fed(
                at.frames,
                end.last().some || end.last().all,
            )
        }),
{
    let open = seq![Piece::Words("("@)];
    let close = seq![Piece::Words(")"@)];
    lemma_words();
    lemma_read_one(at, Piece::Words("("@), params, row);
    lemma_read_concat(at, open, pieces, params, row);
    lemma_read_concat(at, open + pieces, close, params, row);
    let one = read(at, Piece::Words("("@), params, row);
    let two = read_all(one, pieces, params, row);
    lemma_read_one(two, Piece::Words(")"@), params, row);
}

proof fn lemma_any_compares(row: RowView, target: Target, prop: Property, role: Option<Seq<char>>, value: Seq<char>)
    ensures
        any_compares(row, comparisons(target, prop, role), Cell::Text(like(value))) == has_it(
            row,
            target,
            prop,
            role,
            value,
        ) || !has_property(target, prop),
{
    reveal_with_fuel(any_compares, 4);
    let all = comparisons(target, prop, role);
    let param = Cell::Text(like(value));
    assert forall|w: Seq<char>| compares(row, w, param) == #[trigger] has_value(row, w, value) by {}
    if all.len() == 1 {
        assert(all.drop_last() =~= Seq::empty());
        assert(compares(row, all[0].before, param) == has_value(row, all[0].before, value));
    } else if all.len() == 3 {
        assert(all.drop_last().drop_last().drop_last() =~= Seq::empty());
        assert(all.drop_last().last() == all[1]);
        assert(all.drop_last().drop_last().last() == all[0]);
        assert(compares(row, all[0].before, param) == has_value(row, all[0].before, value));
        assert(compares(row, all[1].before, param) == has_value(row, all[1].before, value));
        assert(compares(row, all[2].before, param) == has_value(row, all[2].before, value));
    }
}

/// Whether the parameters behind the first `base` are those of the condition.
pub open spec fn has_params(params: Seq<Cell>, base: nat, own: Seq<Cell>) -> bool {
    base + own.len() <= params.len() && params.subrange(base as int, base + own.len() as int) == own
}

proof fn lemma_read_clause(
    at: Reading,
    p: Predicate,
    target: Target,
    base: nat,
    params: Seq<Cell>,
    row: RowView,
)
    requires
        at.frames.len() > 0,
        base + clause(p, target, base).params.len() <= u64::MAX,
        has_params(params, base, clause(p, target, base).params),
    ensures
        clause(p, target, base).params.len() > 0 <==> asks(p, target),
        asks(p, target) ==> read_all(at, clause(p, target, base).pieces, params, row).frames == fed(
            at.frames,
            meets(row, target, p),
        ),
    decreases p,
{
    let c = clause(p, target, base);
    let inner = Reading { frames: at.frames.push(fresh()), words: at.words };
    match p {
        Predicate::Contains { prop, value, role } => {
            let templates = comparisons(target, prop, opt_text(role));
            lemma_comparisons(target, prop, opt_text(role));
            if templates.len() > 0 {
                let n = place(base + 1);
                let v = search_form(value@);
                assert(n == base + 1);
                assert(params.subrange(base as int, base as int + 1)[0] == c.params[0]);
                assert(params[n - 1] == Cell::Text(like(v)));
                lemma_any_compares(row, target, prop, opt_text(role), v);
                if templates.len() == 1 {
                    let t = templates[0];
                    lemma_read_comparison(at, t, n, params, row);
                    assert(templates.drop_last() =~= Seq::empty());
                    assert(!any_compares(row, templates.drop_last(), params[n - 1]));
                    assert(either(templates, n) == seq![
                        Piece::Words(t.before),
                        Piece::Place(n),
                        Piece::Words(t.after),
                    ]);
                } else {
                    lemma_read_either(inner, templates, n, params, row);
                    assert(inner.frames.drop_last() =~= at.frames);
                    lemma_read_in_brackets(at, either(templates, n), params, row);
                }
            }
        },
        Predicate::And(children) => {
            let all = joined_clauses(children@, " AND "@, target, base);
            assert(all.params =~= c.params);
            lemma_read_joined(inner, children@, true, target, base, params, row);
            if all.params.len() > 0 {
                assert(inner.frames.drop_last() =~= at.frames);
                lemma_read_in_brackets(at, all.pieces, params, row);
            }
        },
        Predicate::Or(children) => {
            let all = joined_clauses(children@, " OR "@, target, base);
            assert(all.params =~= c.params);
            lemma_read_joined(inner, children@, false, target, base, params, row);
            if all.params.len() > 0 {
                assert(inner.frames.drop_last() =~= at.frames);
                lemma_read_in_brackets(at, all.pieces, params, row);
            }
        },
        Predicate::DerivedFrom(_) => {},
        Predicate::True => {},
    }
}

proof fn lemma_read_joined(
    at: Reading,
    children: Seq<Predicate>,
    all: bool,
    target: Target,
    base: nat,
    params: Seq<Cell>,
    row: RowView,
)
    requires
        at.frames.len() > 0,
        at.frames.last() == fresh(),
        ({
            let sep = if all { " AND "@ } else { " OR "@ };
            let c = joined_clauses(children, sep, target, base);
            base + c.params.len() <= u64::MAX && has_params(params, base, c.params)
        }),
    ensures
        ({
            let sep = if all { " AND "@ } else { " OR "@ };
            let c = joined_clauses(children, sep, target, base);
            let end = read_all(at, c.pieces, params, row).frames;
            &&& c.params.len() > 0 <==> any_asks(children, target)
            &&& c.params.len() > 0 ==> {
                &&& end.len() == at.frames.len()
                &&& end.drop_last() == at.frames.drop_last()
                &&& all ==> !end.last().some && end.last().all == meets_all(row, target, children)
                &&& !all ==> (end.last().some || end.last().all) == meets_any(row, target, children)
            }
            &&& c.params.len() == 0 ==> meets_all(row, target, children) && !meets_any(
                row,
                target,
                children,
            )
        }),
    decreases children,
{
    let sep = if all { " AND "@ } else { " OR "@ };
    if children.len() > 0 {
        let front = children.subrange(0, children.len() - 1);
        let last = children[children.len() - 1];
        let before = joined_clauses(front, sep, target, base);
        let from = place(base + before.params.len());
        let own = clause(last, target, from);
        let c = beside(before, sep, own);
        assert(c == joined_clauses(children, sep, target, base));
        assert(c.params =~= before.params + own.params);
        assert(from == base + before.params.len());
        let given = params.subrange(base as int, base + c.params.len() as int);
        assert(params.subrange(base as int, base + before.params.len() as int) =~= given.take(
            before.params.len() as int,
        ));
        assert(given.take(before.params.len() as int) =~= before.params);
        assert(params.subrange(from as int, from + own.params.len() as int) =~= given.skip(
            before.params.len() as int,
        ));
        assert(given.skip(before.params.len() as int) =~= own.params);
        lemma_read_joined(at, front, all, target, base, params, row);
        if before.params.len() == 0 {
            lemma_read_clause(at, last, target, from, params, row);
            if own.params.len() > 0 {
                let end = read_all(at, own.pieces, params, row).frames;
                assert(end.drop_last() =~= at.frames.drop_last());
            }
        } else {
            let one = read_all(at, before.pieces, params, row);
            let word = seq![Piece::Words(sep)];
            lemma_read_concat(at, before.pieces, word, params, row);
            lemma_read_concat(at, before.pieces + word, own.pieces, params, row);
            lemma_read_one(one, Piece::Words(sep), params, row);
            lemma_words();
            let two = read(one, Piece::Words(sep), params, row);
            assert(two.frames.drop_last() =~= at.frames.drop_last());
            lemma_read_clause(two, last, target, from, params, row);
            if own.params.len() > 0 {
                let end = read_all(two, own.pieces, params, row).frames;
                assert(end.drop_last() =~= at.frames.drop_last());
            }
        }
    }
}

// ── Laws ─────────────────────────────────────────────────────────────────

/// A condition holds of exactly the rows that meet the criteria it is made of: of those
/// that meet every one of several criteria joined by `and`, and of those that meet at
/// least one where they are joined by `or`. Criteria that ask nothing of what is searched
/// are no condition.
pub proof fn conditions_find_what_meets_the_criteria(
    p: &Predicate,
    target: Target,
    base: u64,
    r: WhereClause,
    params: Seq<Cell>,
    row: RowView,
)
    requires
        call_ensures(walk, (p, target, base), r),
        base + r.params@.len() <= u64::MAX,
        has_params(params, base as nat, cells(r.params@)),
    ensures
        r.params@.len() > 0 <==> asks(*p, target),
        asks(*p, target) ==> exists|pieces: Seq<Piece>|
            r.sql@ == rendered(pieces) && #[trigger] holds_of(pieces, params, row) == meets(
                row,
                target,
                *p,
            ),
{
    let c = clause(*p, target, base as nat);
    assert(c.params.len() == r.params@.len());
    let at = Reading { frames: seq![fresh()], words: Seq::empty() };
    lemma_read_clause(at, *p, target, base as nat, params, row);
    if asks(*p, target) {
        assert(holds_of(c.pieces, params, row) == meets(row, target, *p));
    }
}

/// All of several criteria are met where each that asks something is met, and any where
/// at least one that asks something is.
pub proof fn several_criteria_are_met_by_each(row: RowView, target: Target, children: Seq<Predicate>)
    ensures
        meets_all(row, target, children) <==> forall|i: int|
            0 <= i < children.len() && asks(#[trigger] children[i], target) ==> meets(
                row,
                target,
                children[i],
            ),
        meets_any(row, target, children) <==> exists|i: int|
            0 <= i < children.len() && asks(#[trigger] children[i], target) && meets(
                row,
                target,
                children[i],
            ),
    decreases children.len(),
{
    if children.len() > 0 {
        let n = children.len() - 1;
        let front = children.subrange(0, n);
        several_criteria_are_met_by_each(row, target, front);
        assert(forall|i: int| 0 <= i < n ==> front[i] == #[trigger] children[i]);
        assert(asks(children[n], target) || !asks(children[n], target));
        if meets_all(row, target, children) {
            assert forall|i: int|
                0 <= i < children.len() && asks(#[trigger] children[i], target) implies meets(
                row,
                target,
                children[i],
            ) by {
                if i < n {
                    assert(front[i] == children[i]);
                }
            }
        }
        if forall|i: int|
            0 <= i < children.len() && asks(#[trigger] children[i], target) ==> meets(
                row,
                target,
                children[i],
            ) {
            assert forall|i: int|
                0 <= i < front.len() && asks(#[trigger] front[i], target) implies meets(
                row,
                target,
                front[i],
            ) by {
                assert(front[i] == children[i]);
            }
        }
        if meets_any(row, target, front) {
            let i = choose|i: int|
                0 <= i < front.len() && asks(#[trigger] front[i], target) && meets(
                    row,
                    target,
                    front[i],
                );
            assert(asks(children[i], target) && meets(row, target, children[i]));
        }
        if exists|i: int|
            0 <= i < children.len() && asks(#[trigger] children[i], target) && meets(
                row,
                target,
                children[i],
            ) {
            let i = choose|i: int|
                0 <= i < children.len() && asks(#[trigger] children[i], target) && meets(
                    row,
                    target,
                    children[i],
                );
            if i < n {
                assert(asks(front[i], target) && meets(row, target, front[i]));
            }
        }
    }
}

} // verus!
