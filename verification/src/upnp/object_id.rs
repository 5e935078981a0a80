//! The ids by which objects are browsed.

use vstd::prelude::*;

use crate::text;

verus! {

/// What an object is, with what tells it apart from others of its kind.
#[derive(Debug)]
pub enum ObjectId {
    Root,
    CatAa,
    CatAr,
    CatAl,
    CatGn,
    CatRecent,
    CatPlayed,
    CatRandom,
    CatHires,
    CatLossy,
    CatMixed,
    CatCm,
    CatCn,
    CatPf,
    CatYr,
    CatDec,
    AlbumArtist(String),
    Artist(String),
    /// Every track of an artist, across albums.
    ArtistTracks(String),
    Genre(String),
    Composer(String),
    Conductor(String),
    Performer(String),
    Year(i32),
    /// The ten years from this one on.
    Decade(i32),
    UnknownGenre,
    UnknownYear,
    UnknownDecade,
    Album(i64),
    Track(i64),
    Disc { album_id: i64, disc: i64 },
}

/// An object's kind and its distinguishing values, as text and numbers.
pub enum ObjectIdView {
    Root,
    CatAa,
    CatAr,
    CatAl,
    CatGn,
    CatRecent,
    CatPlayed,
    CatRandom,
    CatHires,
    CatLossy,
    CatMixed,
    CatCm,
    CatCn,
    CatPf,
    CatYr,
    CatDec,
    AlbumArtist(Seq<char>),
    Artist(Seq<char>),
    ArtistTracks(Seq<char>),
    Genre(Seq<char>),
    Composer(Seq<char>),
    Conductor(Seq<char>),
    Performer(Seq<char>),
    Year(i32),
    Decade(i32),
    UnknownGenre,
    UnknownYear,
    UnknownDecade,
    Album(i64),
    Track(i64),
    Disc { album_id: i64, disc: i64 },
}

impl View for ObjectId {
    type V = ObjectIdView;

    open spec fn view(&self) -> ObjectIdView {
        match self {
            ObjectId::Root => ObjectIdView::Root,
            ObjectId::CatAa => ObjectIdView::CatAa,
            ObjectId::CatAr => ObjectIdView::CatAr,
            ObjectId::CatAl => ObjectIdView::CatAl,
            ObjectId::CatGn => ObjectIdView::CatGn,
            ObjectId::CatRecent => ObjectIdView::CatRecent,
            ObjectId::CatPlayed => ObjectIdView::CatPlayed,
            ObjectId::CatRandom => ObjectIdView::CatRandom,
            ObjectId::CatHires => ObjectIdView::CatHires,
            ObjectId::CatLossy => ObjectIdView::CatLossy,
            ObjectId::CatMixed => ObjectIdView::CatMixed,
            ObjectId::CatCm => ObjectIdView::CatCm,
            ObjectId::CatCn => ObjectIdView::CatCn,
            ObjectId::CatPf => ObjectIdView::CatPf,
            ObjectId::CatYr => ObjectIdView::CatYr,
            ObjectId::CatDec => ObjectIdView::CatDec,
            ObjectId::AlbumArtist(s) => ObjectIdView::AlbumArtist(s@),
            ObjectId::Artist(s) => ObjectIdView::Artist(s@),
            ObjectId::ArtistTracks(s) => ObjectIdView::ArtistTracks(s@),
            ObjectId::Genre(s) => ObjectIdView::Genre(s@),
            ObjectId::Composer(s) => ObjectIdView::Composer(s@),
            ObjectId::Conductor(s) => ObjectIdView::Conductor(s@),
            ObjectId::Performer(s) => ObjectIdView::Performer(s@),
            ObjectId::Year(y) => ObjectIdView::Year(*y),
            ObjectId::Decade(d) => ObjectIdView::Decade(*d),
            ObjectId::UnknownGenre => ObjectIdView::UnknownGenre,
            ObjectId::UnknownYear => ObjectIdView::UnknownYear,
            ObjectId::UnknownDecade => ObjectIdView::UnknownDecade,
            ObjectId::Album(id) => ObjectIdView::Album(*id),
            ObjectId::Track(id) => ObjectIdView::Track(*id),
            ObjectId::Disc { album_id, disc } => ObjectIdView::Disc {
                album_id: *album_id,
                disc: *disc,
            },
        }
    }
}

/// The base64 character of a number below 64.
pub open spec fn base64_char(n: nat) -> char {
    if n < 26 {
        (n + 65) as char
    } else if n < 52 {
        (n + 71) as char
    } else if n < 62 {
        (n - 4) as char
    } else if n == 62 {
        '+'
    } else {
        '/'
    }
}

/// The four base64 characters of three bytes, of which the last `3 - n` only pad.
pub open spec fn base64_group(a: nat, b: nat, c: nat, n: int) -> Seq<char> {
    seq![
        base64_char(a / 4),
        base64_char((a % 4) * 16 + b / 16),
        if n > 1 {
            base64_char((b % 16) * 4 + c / 64)
        } else {
            '='
        },
        if n > 2 {
            base64_char(c % 64)
        } else {
            '='
        },
    ]
}

/// Base64 with the standard alphabet and padding.
pub open spec fn base64(bytes: Seq<u8>) -> Seq<char>
    decreases bytes.len(),
{
    if bytes.len() == 0 {
        Seq::empty()
    } else if bytes.len() == 1 {
        base64_group(bytes[0] as nat, 0, 0, 1)
    } else if bytes.len() == 2 {
        base64_group(bytes[0] as nat, bytes[1] as nat, 0, 2)
    } else {
        base64_group(bytes[0] as nat, bytes[1] as nat, bytes[2] as nat, 3) + base64(bytes.skip(3))
    }
}

/// A name as it stands in an id: the base64 of its UTF-8 bytes.
pub open spec fn encoded_name(name: Seq<char>) -> Seq<char> {
    base64(vstd::utf8::encode_utf8(name))
}

/// The id of an object.
pub open spec fn encoded(id: ObjectIdView) -> Seq<char> {
    match id {
        ObjectIdView::Root => "0"@,
        ObjectIdView::CatAa => "cat:aa"@,
        ObjectIdView::CatAr => "cat:ar"@,
        ObjectIdView::CatAl => "cat:al"@,
        ObjectIdView::CatGn => "cat:gn"@,
        ObjectIdView::CatRecent => "cat:recent"@,
        ObjectIdView::CatPlayed => "cat:played"@,
        ObjectIdView::CatRandom => "cat:random"@,
        ObjectIdView::CatHires => "cat:hires"@,
        ObjectIdView::CatLossy => "cat:lossy"@,
        ObjectIdView::CatMixed => "cat:mixed"@,
        ObjectIdView::CatCm => "cat:cm"@,
        ObjectIdView::CatCn => "cat:cn"@,
        ObjectIdView::CatPf => "cat:pf"@,
        ObjectIdView::CatYr => "cat:yr"@,
        ObjectIdView::CatDec => "cat:dec"@,
        ObjectIdView::AlbumArtist(s) => "aa:"@ + encoded_name(s),
        ObjectIdView::Artist(s) => "ar:"@ + encoded_name(s),
        ObjectIdView::ArtistTracks(s) => "at:"@ + encoded_name(s),
        ObjectIdView::Genre(s) => "gn:"@ + encoded_name(s),
        ObjectIdView::Composer(s) => "cm:"@ + encoded_name(s),
        ObjectIdView::Conductor(s) => "cn:"@ + encoded_name(s),
        ObjectIdView::Performer(s) => "pf:"@ + encoded_name(s),
        ObjectIdView::Year(y) => "yr:"@ + text::decimal_int(y as int),
        ObjectIdView::Decade(d) => "dec:"@ + text::decimal_int(d as int),
        ObjectIdView::UnknownGenre => "gn:"@,
        ObjectIdView::UnknownYear => "yr:0"@,
        ObjectIdView::UnknownDecade => "dec:0"@,
        ObjectIdView::Album(id) => "alb:"@ + text::decimal_int(id as int),
        ObjectIdView::Track(id) => "trk:"@ + text::decimal_int(id as int),
        ObjectIdView::Disc { album_id, disc } => "disc:"@ + text::decimal_int(album_id as int)
            + ":"@ + text::decimal_int(disc as int),
    }
}

/// Whether two objects go by one id: what has no genre, year or decade is found
/// under the empty genre, year 0 and decade 0.
pub open spec fn shares_id(a: ObjectIdView, b: ObjectIdView) -> bool {
    match (a, b) {
        (ObjectIdView::UnknownGenre, ObjectIdView::Genre(s)) => s.len() == 0,
        (ObjectIdView::UnknownYear, ObjectIdView::Year(y)) => y == 0,
        (ObjectIdView::UnknownDecade, ObjectIdView::Decade(d)) => d == 0,
        _ => false,
    }
}

proof fn lemma_base64_char(a: nat, b: nat)
    requires
        a < 64,
        b < 64,
    ensures
        base64_char(a) != '=',
        base64_char(a) == base64_char(b) ==> a == b,
{
    assert(a < 26 ==> base64_char(a) as nat == a + 65);
    assert(26 <= a < 52 ==> base64_char(a) as nat == a + 71);
    assert(52 <= a < 62 ==> base64_char(a) as nat == a - 4);
    assert(b < 26 ==> base64_char(b) as nat == b + 65);
    assert(26 <= b < 52 ==> base64_char(b) as nat == b + 71);
    assert(52 <= b < 62 ==> base64_char(b) as nat == b - 4);
}

/// The four characters of a group give back its bytes.
proof fn lemma_base64_group(a: Seq<nat>, n: int, b: Seq<nat>, m: int)
    requires
        a.len() == 3,
        b.len() == 3,
        1 <= n <= 3,
        1 <= m <= 3,
        forall|i: int| 0 <= i < 3 ==> #[trigger] a[i] < 256,
        forall|i: int| 0 <= i < 3 ==> #[trigger] b[i] < 256,
        forall|i: int| n <= i < 3 ==> #[trigger] a[i] == 0,
        forall|i: int| m <= i < 3 ==> #[trigger] b[i] == 0,
        base64_group(a[0], a[1], a[2], n) == base64_group(b[0], b[1], b[2], m),
    ensures
        n == m,
        a == b,
{
    let g = base64_group(a[0], a[1], a[2], n);
    let h = base64_group(b[0], b[1], b[2], m);
    let a2 = (a[1] % 16) * 4 + a[2] / 64;
    let b2 = (b[1] % 16) * 4 + b[2] / 64;
    assert(g[0] == h[0] && g[1] == h[1] && g[2] == h[2] && g[3] == h[3]);
    lemma_base64_char(a[0] / 4, b[0] / 4);
    lemma_base64_char((a[0] % 4) * 16 + a[1] / 16, (b[0] % 4) * 16 + b[1] / 16);
    lemma_base64_char(a2, b2);
    lemma_base64_char(b2, a2);
    lemma_base64_char(a[2] % 64, b[2] % 64);
    lemma_base64_char(b[2] % 64, a[2] % 64);
    assert(n == m);
    assert(a[0] == b[0]);
    assert(a[1] / 16 == b[1] / 16);
    if n > 1 {
        assert(a2 == b2);
        assert(a[1] % 16 == b[1] % 16);
    }
    assert(a =~= b);
}

/// The first three bytes of a list, with zeros where it has fewer.
spec fn first_bytes(s: Seq<u8>) -> Seq<nat> {
    Seq::new(
        3,
        |i: int|
            if i < s.len() {
                s[i] as nat
            } else {
                0
            },
    )
}

/// Different bytes have different base64.
proof fn lemma_base64(a: Seq<u8>, b: Seq<u8>)
    requires
        base64(a) == base64(b),
    ensures
        a == b,
    decreases a.len(),
{
    if a.len() == 0 || b.len() == 0 {
        assert(a.len() > 0 ==> base64(a).len() >= 4);
        assert(b.len() > 0 ==> base64(b).len() >= 4);
        assert(a =~= b);
    } else {
        let (p, q) = (first_bytes(a), first_bytes(b));
        let n = if a.len() < 3 { a.len() as int } else { 3 };
        let m = if b.len() < 3 { b.len() as int } else { 3 };
        let (g, h) = (base64_group(p[0], p[1], p[2], n), base64_group(q[0], q[1], q[2], m));
        assert(base64(a).take(4) =~= g);
        assert(base64(b).take(4) =~= h);
        lemma_base64_group(p, n, q, m);
        assert forall|i: int| 0 <= i < n implies a[i] == b[i] by {
            assert(p[i] == q[i]);
        }
        if a.len() >= 3 {
            assert(base64(a).skip(4) =~= base64(a.skip(3)));
        } else {
            assert(base64(a).len() == 4);
        }
        if b.len() >= 3 {
            assert(base64(b).skip(4) =~= base64(b.skip(3)));
        }
        if n == 3 {
            lemma_base64(a.skip(3), b.skip(3));
            assert(a =~= a.take(3) + a.skip(3));
            assert(b =~= b.take(3) + b.skip(3));
            assert(a.take(3) =~= b.take(3));
        } else {
            assert(a =~= b);
        }
    }
}

/// Different names are written differently in ids.
proof fn lemma_encoded_name(a: Seq<char>, b: Seq<char>)
    requires
        encoded_name(a) == encoded_name(b),
    ensures
        a == b,
{
    lemma_base64(vstd::utf8::encode_utf8(a), vstd::utf8::encode_utf8(b));
    vstd::utf8::encode_utf8_decode_utf8(a);
    vstd::utf8::encode_utf8_decode_utf8(b);
}

/// A written number has a character and no colon.
proof fn lemma_decimal_int(n: int)
    ensures
        text::decimal_int(n).len() > 0,
        forall|i: int| 0 <= i < text::decimal_int(n).len() ==> #[trigger] text::decimal_int(n)[i] != ':',
{
    let s = text::decimal_int(n);
    if n < 0 {
        text::lemma_decimal((-n) as nat);
        assert forall|i: int| 0 <= i < s.len() implies #[trigger] s[i] != ':' by {
            if i > 0 {
                assert(s[i] == text::decimal((-n) as nat)[i - 1]);
                assert(text::is_digit(text::decimal((-n) as nat)[i - 1]));
            }
        }
    } else {
        text::lemma_decimal(n as nat);
        assert forall|i: int| 0 <= i < s.len() implies #[trigger] s[i] != ':' by {
            assert(text::is_digit(s[i]));
        }
    }
}

/// Different numbers are written differently.
proof fn lemma_decimal_int_differs(a: int, b: int)
    requires
        text::decimal_int(a) == text::decimal_int(b),
    ensures
        a == b,
{
    let (x, y) = (if a < 0 { (-a) as nat } else { a as nat }, if b < 0 { (-b) as nat } else { b as nat });
    text::lemma_decimal(x);
    text::lemma_decimal(y);
    let s = text::decimal_int(a);
    assert(text::is_digit(text::decimal(x)[0]));
    assert(text::is_digit(text::decimal(y)[0]));
    assert(a < 0 <==> s[0] == '-');
    assert(b < 0 <==> s[0] == '-');
    if a < 0 {
        assert(s.skip(1) =~= text::decimal(x));
        assert(text::decimal_int(b).skip(1) =~= text::decimal(y));
    }
}

/// Texts that follow one prefix are equal where the wholes are.
proof fn lemma_same_tail(prefix: Seq<char>, a: Seq<char>, b: Seq<char>)
    requires
        prefix + a == prefix + b,
    ensures
        a == b,
{
    assert((prefix + a).skip(prefix.len() as int) =~= a);
    assert((prefix + b).skip(prefix.len() as int) =~= b);
}

/// The characters of an id by which its kind is known: the first two, and for a
/// category the two after its tag.
spec fn mark(id: ObjectIdView) -> (char, char, char, char) {
    match id {
        ObjectIdView::Root => ('0', ' ', ' ', ' '),
        ObjectIdView::CatAa => ('c', 'a', 'a', 'a'),
        ObjectIdView::CatAr => ('c', 'a', 'a', 'r'),
        ObjectIdView::CatAl => ('c', 'a', 'a', 'l'),
        ObjectIdView::CatGn => ('c', 'a', 'g', 'n'),
        ObjectIdView::CatRecent => ('c', 'a', 'r', 'e'),
        ObjectIdView::CatPlayed => ('c', 'a', 'p', 'l'),
        ObjectIdView::CatRandom => ('c', 'a', 'r', 'a'),
        ObjectIdView::CatHires => ('c', 'a', 'h', 'i'),
        ObjectIdView::CatLossy => ('c', 'a', 'l', 'o'),
        ObjectIdView::CatMixed => ('c', 'a', 'm', 'i'),
        ObjectIdView::CatCm => ('c', 'a', 'c', 'm'),
        ObjectIdView::CatCn => ('c', 'a', 'c', 'n'),
        ObjectIdView::CatPf => ('c', 'a', 'p', 'f'),
        ObjectIdView::CatYr => ('c', 'a', 'y', 'r'),
        ObjectIdView::CatDec => ('c', 'a', 'd', 'e'),
        ObjectIdView::AlbumArtist(_) => ('a', 'a', ' ', ' '),
        ObjectIdView::Artist(_) => ('a', 'r', ' ', ' '),
        ObjectIdView::ArtistTracks(_) => ('a', 't', ' ', ' '),
        ObjectIdView::Genre(_) => ('g', 'n', ' ', ' '),
        ObjectIdView::Composer(_) => ('c', 'm', ' ', ' '),
        ObjectIdView::Conductor(_) => ('c', 'n', ' ', ' '),
        ObjectIdView::Performer(_) => ('p', 'f', ' ', ' '),
        ObjectIdView::Year(_) => ('y', 'r', ' ', ' '),
        ObjectIdView::Decade(_) => ('d', 'e', ' ', ' '),
        ObjectIdView::UnknownGenre => ('g', 'n', ' ', ' '),
        ObjectIdView::UnknownYear => ('y', 'r', ' ', ' '),
        ObjectIdView::UnknownDecade => ('d', 'e', ' ', ' '),
        ObjectIdView::Album(_) => ('a', 'l', ' ', ' '),
        ObjectIdView::Track(_) => ('t', 'r', ' ', ' '),
        ObjectIdView::Disc { .. } => ('d', 'i', ' ', ' '),
    }
}

/// The mark that a text carries.
spec fn mark_of(s: Seq<char>) -> (char, char, char, char) {
    if s.len() < 2 {
        (s[0], ' ', ' ', ' ')
    } else if s[0] == 'c' && s[1] == 'a' {
        (s[0], s[1], s[4], s[5])
    } else {
        (s[0], s[1], ' ', ' ')
    }
}

/// An id carries the mark of its kind.
proof fn lemma_mark(id: ObjectIdView)
    ensures
        mark_of(encoded(id)) == mark(id),
{
    reveal_strlit("0");
    reveal_strlit("cat:aa");
    reveal_strlit("cat:ar");
    reveal_strlit("cat:al");
    reveal_strlit("cat:gn");
    reveal_strlit("cat:recent");
    reveal_strlit("cat:played");
    reveal_strlit("cat:random");
    reveal_strlit("cat:hires");
    reveal_strlit("cat:lossy");
    reveal_strlit("cat:mixed");
    reveal_strlit("cat:cm");
    reveal_strlit("cat:cn");
    reveal_strlit("cat:pf");
    reveal_strlit("cat:yr");
    reveal_strlit("cat:dec");
    reveal_strlit("aa:");
    reveal_strlit("ar:");
    reveal_strlit("at:");
    reveal_strlit("gn:");
    reveal_strlit("cm:");
    reveal_strlit("cn:");
    reveal_strlit("pf:");
    reveal_strlit("yr:");
    reveal_strlit("yr:0");
    reveal_strlit("dec:");
    reveal_strlit("dec:0");
    reveal_strlit("alb:");
    reveal_strlit("trk:");
    reveal_strlit("disc:");
}

/// The album and disc number of a disc are told apart by the colon between them.
proof fn lemma_disc(a: int, b: int, c: int, d: int)
    requires
        "disc:"@ + text::decimal_int(a) + ":"@ + text::decimal_int(b) == "disc:"@
            + text::decimal_int(c) + ":"@ + text::decimal_int(d),
    ensures
        a == c,
        b == d,
{
    reveal_strlit(":");
    let (p, q, r, s) = (
        text::decimal_int(a),
        text::decimal_int(b),
        text::decimal_int(c),
        text::decimal_int(d),
    );
    let (x, y) = (p + ":"@ + q, r + ":"@ + s);
    assert("disc:"@ + p + ":"@ + q =~= "disc:"@ + x);
    assert("disc:"@ + r + ":"@ + s =~= "disc:"@ + y);
    lemma_same_tail("disc:"@, x, y);
    lemma_decimal_int(a);
    lemma_decimal_int(c);
    assert(x[p.len() as int] == ':');
    assert(y[r.len() as int] == ':');
    if p.len() < r.len() {
        assert(y[p.len() as int] == r[p.len() as int]);
    }
    if r.len() < p.len() {
        assert(x[r.len() as int] == p[r.len() as int]);
    }
    assert(x.take(p.len() as int) =~= p);
    assert(y.take(r.len() as int) =~= r);
    assert(x.skip(p.len() as int + 1) =~= q);
    assert(y.skip(r.len() as int + 1) =~= s);
    lemma_decimal_int_differs(a, c);
    lemma_decimal_int_differs(b, d);
}

/// Different objects have different ids, apart from what has no genre, year or
/// decade, which goes by the id of the empty genre, year 0 and decade 0.
pub proof fn ids_tell_objects_apart(a: ObjectIdView, b: ObjectIdView)
    requires
        a != b,
        !shares_id(a, b),
        !shares_id(b, a),
    ensures
        encoded(a) != encoded(b),
{
    if encoded(a) == encoded(b) {
        lemma_mark(a);
        lemma_mark(b);
        lemma_same_kind(a, b);
    }
}

/// Objects of one kind are told apart by what follows the tag.
proof fn lemma_same_kind(a: ObjectIdView, b: ObjectIdView)
    requires
        mark(a) == mark(b),
        encoded(a) == encoded(b),
    ensures
        a == b || shares_id(a, b) || shares_id(b, a),
{
    reveal_strlit("yr:");
    reveal_strlit("yr:0");
    reveal_strlit("dec:");
    reveal_strlit("dec:0");
    match (a, b) {
        (ObjectIdView::AlbumArtist(s), ObjectIdView::AlbumArtist(t)) => {
            lemma_same_tail("aa:"@, encoded_name(s), encoded_name(t));
            lemma_encoded_name(s, t);
        },
        (ObjectIdView::Artist(s), ObjectIdView::Artist(t)) => {
            lemma_same_tail("ar:"@, encoded_name(s), encoded_name(t));
            lemma_encoded_name(s, t);
        },
        (ObjectIdView::ArtistTracks(s), ObjectIdView::ArtistTracks(t)) => {
            lemma_same_tail("at:"@, encoded_name(s), encoded_name(t));
            lemma_encoded_name(s, t);
        },
        (ObjectIdView::Genre(s), ObjectIdView::Genre(t)) => {
            lemma_same_tail("gn:"@, encoded_name(s), encoded_name(t));
            lemma_encoded_name(s, t);
        },
        (ObjectIdView::Composer(s), ObjectIdView::Composer(t)) => {
            lemma_same_tail("cm:"@, encoded_name(s), encoded_name(t));
            lemma_encoded_name(s, t);
        },
        (ObjectIdView::Conductor(s), ObjectIdView::Conductor(t)) => {
            lemma_same_tail("cn:"@, encoded_name(s), encoded_name(t));
            lemma_encoded_name(s, t);
        },
        (ObjectIdView::Performer(s), ObjectIdView::Performer(t)) => {
            lemma_same_tail("pf:"@, encoded_name(s), encoded_name(t));
            lemma_encoded_name(s, t);
        },
        (ObjectIdView::Genre(s), ObjectIdView::UnknownGenre) => {
            lemma_no_genre(s);
        },
        (ObjectIdView::UnknownGenre, ObjectIdView::Genre(s)) => {
            lemma_no_genre(s);
        },
        (ObjectIdView::Year(y), ObjectIdView::Year(z)) => {
            lemma_same_tail("yr:"@, text::decimal_int(y as int), text::decimal_int(z as int));
            lemma_decimal_int_differs(y as int, z as int);
        },
        (ObjectIdView::Decade(y), ObjectIdView::Decade(z)) => {
            lemma_same_tail("dec:"@, text::decimal_int(y as int), text::decimal_int(z as int));
            lemma_decimal_int_differs(y as int, z as int);
        },
        (ObjectIdView::Year(y), ObjectIdView::UnknownYear)
        | (ObjectIdView::UnknownYear, ObjectIdView::Year(y)) => {
            lemma_zero();
            assert("yr:0"@ =~= "yr:"@ + text::decimal_int(0));
            lemma_same_tail("yr:"@, text::decimal_int(y as int), text::decimal_int(0));
            lemma_decimal_int_differs(y as int, 0);
        },
        (ObjectIdView::Decade(y), ObjectIdView::UnknownDecade)
        | (ObjectIdView::UnknownDecade, ObjectIdView::Decade(y)) => {
            lemma_zero();
            assert("dec:0"@ =~= "dec:"@ + text::decimal_int(0));
            lemma_same_tail("dec:"@, text::decimal_int(y as int), text::decimal_int(0));
            lemma_decimal_int_differs(y as int, 0);
        },
        (ObjectIdView::Album(y), ObjectIdView::Album(z)) => {
            lemma_same_tail("alb:"@, text::decimal_int(y as int), text::decimal_int(z as int));
            lemma_decimal_int_differs(y as int, z as int);
        },
        (ObjectIdView::Track(y), ObjectIdView::Track(z)) => {
            lemma_same_tail("trk:"@, text::decimal_int(y as int), text::decimal_int(z as int));
            lemma_decimal_int_differs(y as int, z as int);
        },
        (
            ObjectIdView::Disc { album_id: p, disc: q },
            ObjectIdView::Disc { album_id: r, disc: s },
        ) => {
            lemma_disc(p as int, q as int, r as int, s as int);
        },
        _ => {},
    }
}

proof fn lemma_zero()
    ensures
        text::decimal_int(0) == seq!['0'],
{
    assert(text::digit_char(0) == '0');
}

/// Only the empty name leaves nothing behind its tag.
proof fn lemma_no_genre(s: Seq<char>)
    requires
        "gn:"@ + encoded_name(s) == "gn:"@,
    ensures
        s.len() == 0,
{
    let none = Seq::<char>::empty();
    assert("gn:"@ + none =~= "gn:"@);
    lemma_same_tail("gn:"@, encoded_name(s), none);
    assert(vstd::utf8::encode_utf8(none) =~= Seq::empty());
    assert(encoded_name(none) =~= none);
    lemma_encoded_name(s, none);
}

fn base64_symbol(n: u8) -> (r: char)
    requires
        n < 64,
    ensures
        r == base64_char(n as nat),
{
    if n < 26 {
        (n + 65) as char
    } else if n < 52 {
        (n + 71) as char
    } else if n < 62 {
        (n - 4) as char
    } else if n == 62 {
        '+'
    } else {
        '/'
    }
}

/// The base64 of a name's UTF-8 bytes.
fn encode_name(name: &str) -> (r: String)
    ensures
        r@ == encoded_name(name@),
{
    let bytes = name.as_bytes();
    let n: usize = bytes.len();
    let mut out = String::new();
    let mut i: usize = 0;
    assert(bytes@.skip(0) =~= bytes@);
    while n - i >= 3
        invariant
            i <= n,
            n == bytes@.len(),
            out@ + base64(bytes@.skip(i as int)) == base64(bytes@),
        decreases n - i,
    {
        let ghost before = out@;
        let a: u8 = bytes[i];
        let b: u8 = bytes[i + 1];
        let c: u8 = bytes[i + 2];
        out.push(base64_symbol(a / 4));
        out.push(base64_symbol((a % 4) * 16 + b / 16));
        out.push(base64_symbol((b % 16) * 4 + c / 64));
        out.push(base64_symbol(c % 64));
        proof {
            let rest = bytes@.skip(i as int);
            let group = base64_group(a as nat, b as nat, c as nat, 3);
            assert(out@ =~= before + group);
            assert(rest.skip(3) =~= bytes@.skip(i + 3));
            assert(base64(rest) == group + base64(rest.skip(3)));
            assert(out@ + base64(bytes@.skip(i + 3)) =~= before + base64(rest));
        }
        i = i + 3;
    }
    let ghost before = out@;
    let ghost rest = bytes@.skip(i as int);
    if n - i == 1 {
        let a: u8 = bytes[i];
        out.push(base64_symbol(a / 4));
        out.push(base64_symbol((a % 4) * 16));
        out.push('=');
        out.push('=');
        assert(out@ =~= before + base64_group(a as nat, 0, 0, 1));
    } else if n - i == 2 {
        let a: u8 = bytes[i];
        let b: u8 = bytes[i + 1];
        out.push(base64_symbol(a / 4));
        out.push(base64_symbol((a % 4) * 16 + b / 16));
        out.push(base64_symbol((b % 16) * 4));
        out.push('=');
        assert(out@ =~= before + base64_group(a as nat, b as nat, 0, 2));
    } else {
        assert(out@ =~= before + base64(rest));
    }
    out
}

/// A tag followed by the encoded name.
fn named(tag: &str, name: &str) -> (r: String)
    ensures
        r@ == tag@ + encoded_name(name@),
{
    text::cat(tag, encode_name(name).as_str())
}

/// A tag followed by a number.
fn numbered(tag: &str, n: i64) -> (r: String)
    ensures
        r@ == tag@ + text::decimal_int(n as int),
{
    text::cat(tag, text::integer_text(n).as_str())
}

/// The id of an object.
pub fn encode(id: &ObjectId) -> (r: String)
    ensures
        r@ == encoded(id@),
{
    match id {
        ObjectId::Root => text::owned("0"),
        ObjectId::CatAa => text::owned("cat:aa"),
        ObjectId::CatAr => text::owned("cat:ar"),
        ObjectId::CatAl => text::owned("cat:al"),
        ObjectId::CatGn => text::owned("cat:gn"),
        ObjectId::CatRecent => text::owned("cat:recent"),
        ObjectId::CatPlayed => text::owned("cat:played"),
        ObjectId::CatRandom => text::owned("cat:random"),
        ObjectId::CatHires => text::owned("cat:hires"),
        ObjectId::CatLossy => text::owned("cat:lossy"),
        ObjectId::CatMixed => text::owned("cat:mixed"),
        ObjectId::CatCm => text::owned("cat:cm"),
        ObjectId::CatCn => text::owned("cat:cn"),
        ObjectId::CatPf => text::owned("cat:pf"),
        ObjectId::CatYr => text::owned("cat:yr"),
        ObjectId::CatDec => text::owned("cat:dec"),
        ObjectId::AlbumArtist(s) => named("aa:", s.as_str()),
        ObjectId::Artist(s) => named("ar:", s.as_str()),
        ObjectId::ArtistTracks(s) => named("at:", s.as_str()),
        ObjectId::Genre(s) => named("gn:", s.as_str()),
        ObjectId::Composer(s) => named("cm:", s.as_str()),
        ObjectId::Conductor(s) => named("cn:", s.as_str()),
        ObjectId::Performer(s) => named("pf:", s.as_str()),
        ObjectId::Year(y) => numbered("yr:", *y as i64),
        ObjectId::Decade(d) => numbered("dec:", *d as i64),
        ObjectId::UnknownGenre => text::owned("gn:"),
        ObjectId::UnknownYear => text::owned("yr:0"),
        ObjectId::UnknownDecade => text::owned("dec:0"),
        ObjectId::Album(id) => numbered("alb:", *id),
        ObjectId::Track(id) => numbered("trk:", *id),
        ObjectId::Disc { album_id, disc } => {
            let head = numbered("disc:", *album_id);
            let tail = text::integer_text(*disc);
            text::cat3(head.as_str(), ":", tail.as_str())
        },
    }
}

// ── What ids say ─────────────────────────────────────────────────────────

/// The number that a base64 character stands for.
pub open spec fn base64_value(c: char) -> nat {
    if 'A' <= c <= 'Z' {
        (c as nat - 'A' as nat) as nat
    } else if 'a' <= c <= 'z' {
        (c as nat - 'a' as nat + 26) as nat
    } else if '0' <= c <= '9' {
        (c as nat - '0' as nat + 52) as nat
    } else if c == '+' {
        62
    } else {
        63
    }
}

/// The bytes that a base64 text stands for.
pub open spec fn base64_bytes(t: Seq<char>) -> Seq<u8>
    decreases t.len(),
{
    if t.len() < 4 {
        Seq::empty()
    } else {
        let (p, q) = (base64_value(t[0]), base64_value(t[1]));
        let (r, s) = (base64_value(t[2]), base64_value(t[3]));
        let a = (p * 4 + q / 16) as u8;
        let b = ((q % 16) * 16 + r / 4) as u8;
        let c = ((r % 4) * 64 + s) as u8;
        if t[2] == '=' {
            seq![a]
        } else if t[3] == '=' {
            seq![a, b]
        } else {
            seq![a, b, c] + base64_bytes(t.skip(4))
        }
    }
}

proof fn lemma_base64_value(n: nat)
    requires
        n < 64,
    ensures
        base64_value(base64_char(n)) == n,
        base64_char(n) != '=',
{
    lemma_base64_char(n, n);
    assert(n < 26 ==> base64_char(n) as nat == n + 65);
    assert(26 <= n < 52 ==> base64_char(n) as nat == n + 71);
    assert(52 <= n < 62 ==> base64_char(n) as nat == n - 4);
}

/// A name can be had back from its base64: the text stands for the bytes that it was made
/// of.
pub proof fn base64_gives_bytes_back(bytes: Seq<u8>)
    ensures
        base64_bytes(base64(bytes)) == bytes,
    decreases bytes.len(),
{
    let t = base64(bytes);
    if bytes.len() == 0 {
        assert(base64_bytes(t) =~= bytes);
    } else {
        let a = bytes[0] as nat;
        let b = if bytes.len() > 1 {
            bytes[1] as nat
        } else {
            0
        };
        let c = if bytes.len() > 2 {
            bytes[2] as nat
        } else {
            0
        };
        lemma_base64_value(a / 4);
        lemma_base64_value((a % 4) * 16 + b / 16);
        lemma_base64_value((b % 16) * 4 + c / 64);
        lemma_base64_value(c % 64);
        assert(t.len() >= 4);
        assert(t[0] == base64_char(a / 4));
        assert(t[1] == base64_char((a % 4) * 16 + b / 16));
        if bytes.len() == 1 {
            assert(t[2] == '=');
            assert(base64_bytes(t) =~= bytes);
        } else if bytes.len() == 2 {
            assert(t[2] == base64_char((b % 16) * 4 + c / 64));
            assert(t[3] == '=');
            assert(base64_bytes(t) =~= bytes);
        } else {
            base64_gives_bytes_back(bytes.skip(3));
            assert(t[2] == base64_char((b % 16) * 4 + c / 64));
            assert(t[3] == base64_char(c % 64));
            assert(t.skip(4) =~= base64(bytes.skip(3)));
            assert(base64_bytes(t) =~= bytes);
        }
    }
}

/// The id of an object says what it is and which: a word before a colon, then its number,
/// or its name in base64.
pub proof fn ids_say_what_objects_are(id: &ObjectId, r: String)
    requires
        call_ensures(encode, (id,), r),
    ensures
        match id@ {
            ObjectIdView::Root => r@ == "0"@,
            ObjectIdView::CatAa => r@ == "cat:aa"@,
            ObjectIdView::CatAr => r@ == "cat:ar"@,
            ObjectIdView::CatAl => r@ == "cat:al"@,
            ObjectIdView::CatGn => r@ == "cat:gn"@,
            ObjectIdView::CatRecent => r@ == "cat:recent"@,
            ObjectIdView::CatPlayed => r@ == "cat:played"@,
            ObjectIdView::CatRandom => r@ == "cat:random"@,
            ObjectIdView::CatHires => r@ == "cat:hires"@,
            ObjectIdView::CatLossy => r@ == "cat:lossy"@,
            ObjectIdView::CatMixed => r@ == "cat:mixed"@,
            ObjectIdView::CatCm => r@ == "cat:cm"@,
            ObjectIdView::CatCn => r@ == "cat:cn"@,
            ObjectIdView::CatPf => r@ == "cat:pf"@,
            ObjectIdView::CatYr => r@ == "cat:yr"@,
            ObjectIdView::CatDec => r@ == "cat:dec"@,
            ObjectIdView::AlbumArtist(name) => r@ == "aa:"@ + encoded_name(name),
            ObjectIdView::Artist(name) => r@ == "ar:"@ + encoded_name(name),
            ObjectIdView::ArtistTracks(name) => r@ == "at:"@ + encoded_name(name),
            ObjectIdView::Genre(name) => r@ == "gn:"@ + encoded_name(name),
            ObjectIdView::Composer(name) => r@ == "cm:"@ + encoded_name(name),
            ObjectIdView::Conductor(name) => r@ == "cn:"@ + encoded_name(name),
            ObjectIdView::Performer(name) => r@ == "pf:"@ + encoded_name(name),
            ObjectIdView::Year(y) => r@ == "yr:"@ + text::decimal_int(y as int),
            ObjectIdView::Decade(d) => r@ == "dec:"@ + text::decimal_int(d as int),
            ObjectIdView::UnknownGenre => r@ == "gn:"@,
            ObjectIdView::UnknownYear => r@ == "yr:0"@,
            ObjectIdView::UnknownDecade => r@ == "dec:0"@,
            ObjectIdView::Album(n) => r@ == "alb:"@ + text::decimal_int(n as int),
            ObjectIdView::Track(n) => r@ == "trk:"@ + text::decimal_int(n as int),
            ObjectIdView::Disc { album_id, disc } => r@ == "disc:"@ + text::decimal_int(
                album_id as int,
            ) + ":"@ + text::decimal_int(disc as int),
        },
        forall|name: Seq<char>|
            base64_bytes(#[trigger] encoded_name(name)) == vstd::utf8::encode_utf8(name),
{
    assert forall|name: Seq<char>| base64_bytes(#[trigger] encoded_name(name))
        == vstd::utf8::encode_utf8(name) by {
        base64_gives_bytes_back(vstd::utf8::encode_utf8(name));
    }
}

} // verus!
