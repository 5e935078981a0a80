//! Text as sequences of characters: the small operations that the rest of the
//! library needs on `str` and `String`, each with its meaning on `Seq<char>`.

use vstd::prelude::*;
use vstd::string::StrSliceExecFns;
use vstd::string::StringExecFns;

verus! {

/// `String::push` appends the one character given to the end of the string.
pub assume_specification[ String::push ](s: &mut String, c: char)
    ensures
        final(s)@ == old(s)@.push(c),
;

// ── Meaning ──────────────────────────────────────────────────────────────

/// The Unicode `White_Space` property.
pub open spec fn is_white_space(c: char) -> bool {
    ||| '\u{9}' <= c <= '\u{d}'
    ||| c == '\u{20}' || c == '\u{85}' || c == '\u{a0}' || c == '\u{1680}'
    ||| '\u{2000}' <= c <= '\u{200a}'
    ||| c == '\u{2028}' || c == '\u{2029}' || c == '\u{202f}' || c == '\u{205f}' || c == '\u{3000}'
}

/// `s` without its leading white space.
pub open spec fn trim_start(s: Seq<char>) -> Seq<char>
    decreases s.len(),
{
    if s.len() > 0 && is_white_space(s[0]) {
        trim_start(s.drop_first())
    } else {
        s
    }
}

/// `s` without its trailing white space.
pub open spec fn trim_end(s: Seq<char>) -> Seq<char>
    decreases s.len(),
{
    if s.len() > 0 && is_white_space(s.last()) {
        trim_end(s.drop_last())
    } else {
        s
    }
}

/// `s` without white space at either end.
pub open spec fn trimmed(s: Seq<char>) -> Seq<char> {
    trim_end(trim_start(s))
}

/// The index of the first `c` in `s`, or the length of `s` where there is none.
pub open spec fn first_index(s: Seq<char>, c: char) -> int
    decreases s.len(),
{
    if s.len() == 0 || s[0] == c {
        0
    } else {
        1 + first_index(s.drop_first(), c)
    }
}

/// The lines of `s`, without the line feeds that end them and a carriage return
/// before those. What follows the last line feed is a line unless it is empty.
pub open spec fn lines(s: Seq<char>) -> Seq<Seq<char>>
    decreases s.len(),
{
    let end = first_index(s, '\n');
    if s.len() == 0 || end < 0 {
        Seq::empty()
    } else if end >= s.len() {
        seq![s]
    } else {
        seq![without_return(s.take(end))] + lines(s.skip(end + 1))
    }
}

/// `s` without a carriage return at its end.
pub open spec fn without_return(s: Seq<char>) -> Seq<char> {
    if s.len() > 0 && s.last() == '\r' {
        s.drop_last()
    } else {
        s
    }
}

/// Whether `a` comes before `b` in the order of their characters.
pub open spec fn comes_before(a: Seq<char>, b: Seq<char>) -> bool
    decreases a.len(),
{
    if b.len() == 0 {
        false
    } else if a.len() == 0 {
        true
    } else if a[0] != b[0] {
        a[0] < b[0]
    } else {
        comes_before(a.skip(1), b.skip(1))
    }
}

/// Whether `s` begins with `p`.
pub open spec fn starts_with(s: Seq<char>, p: Seq<char>) -> bool {
    p.len() <= s.len() && s.take(p.len() as int) == p
}

/// Whether `s` ends with `p`.
pub open spec fn ends_with(s: Seq<char>, p: Seq<char>) -> bool {
    p.len() <= s.len() && s.skip(s.len() - p.len()) == p
}

/// Whether `c` is one of `0` to `9`.
pub open spec fn is_digit(c: char) -> bool {
    '0' <= c <= '9'
}

/// Whether every character of `s` is a decimal digit.
pub open spec fn all_digits(s: Seq<char>) -> bool {
    forall|i: int| 0 <= i < s.len() ==> is_digit(#[trigger] s[i])
}

/// The number that a sequence of decimal digits stands for.
pub open spec fn digits_value(s: Seq<char>) -> nat
    decreases s.len(),
{
    if s.len() == 0 {
        0
    } else {
        digits_value(s.drop_last()) * 10 + (s.last() as nat - '0' as nat) as nat
    }
}

/// The character of a one-digit number.
pub open spec fn digit_char(d: nat) -> char {
    (d + '0' as nat) as char
}

/// The decimal digits of `n`, without leading zeros.
pub open spec fn decimal(n: nat) -> Seq<char>
    decreases n,
{
    if n < 10 {
        seq![digit_char(n)]
    } else {
        decimal(n / 10).push(digit_char(n % 10))
    }
}

/// The decimal digits of `n`, with a leading minus sign where `n` is negative.
pub open spec fn decimal_int(n: int) -> Seq<char> {
    if n < 0 {
        seq!['-'] + decimal((-n) as nat)
    } else {
        decimal(n as nat)
    }
}

/// An unsigned decimal number: an optional plus sign and at least one digit, with
/// a value of at most `max`.
pub open spec fn parsed_number(s: Seq<char>, max: nat) -> Option<nat> {
    let digits = if s.len() > 0 && s[0] == '+' {
        s.drop_first()
    } else {
        s
    };
    if digits.len() > 0 && all_digits(digits) && digits_value(digits) <= max {
        Some(digits_value(digits))
    } else {
        None
    }
}

/// The lower-case form of an ASCII capital, and every other character as it is.
pub open spec fn lower(c: char) -> char {
    if 'A' <= c <= 'Z' {
        (c as u32 + 32) as char
    } else {
        c
    }
}

/// The upper-case form of an ASCII small letter, and every other character as it is.
pub open spec fn upper(c: char) -> char {
    if 'a' <= c <= 'z' {
        (c as u32 - 32) as char
    } else {
        c
    }
}

/// `s` with its ASCII capitals made small.
pub open spec fn lowered(s: Seq<char>) -> Seq<char> {
    s.map_values(|c: char| lower(c))
}

/// `s` with its ASCII small letters made capitals.
pub open spec fn uppered(s: Seq<char>) -> Seq<char> {
    s.map_values(|c: char| upper(c))
}

/// The parts, one after the other, with `sep` between each two.
pub open spec fn joined(parts: Seq<Seq<char>>, sep: Seq<char>) -> Seq<char>
    decreases parts.len(),
{
    if parts.len() == 0 {
        Seq::empty()
    } else if parts.len() == 1 {
        parts[0]
    } else {
        joined(parts.drop_last(), sep) + sep + parts.last()
    }
}

/// The characters of each string.
pub open spec fn texts(v: Seq<String>) -> Seq<Seq<char>> {
    v.map_values(|s: String| s@)
}

/// The characters of an optional string.
pub open spec fn opt_text(o: Option<String>) -> Option<Seq<char>> {
    match o {
        Some(s) => Some(s@),
        None => None,
    }
}

/// The characters of an optional string slice.
pub open spec fn opt_str(o: Option<&str>) -> Option<Seq<char>> {
    match o {
        Some(s) => Some(s@),
        None => None,
    }
}

/// Whether `part` stands somewhere in `s`.
pub open spec fn has_part(s: Seq<char>, part: Seq<char>) -> bool {
    exists|i: int|
        0 <= i <= s.len() - part.len() && #[trigger] s.subrange(i, i + part.len()) == part
}

/// Whether `line` is one of the inner lines of `s`, whose lines end with a carriage
/// return and a line feed.
pub open spec fn has_line(s: Seq<char>, line: Seq<char>) -> bool {
    has_part(s, "\r\n"@ + line + "\r\n"@)
}

// ── Facts ────────────────────────────────────────────────────────────────

/// `trim_start` drops characters of the front only, and leaves no white space there.
pub proof fn lemma_trim_start(s: Seq<char>, n: int)
    requires
        0 <= n <= s.len(),
        forall|i: int| 0 <= i < n ==> is_white_space(#[trigger] s[i]),
        n < s.len() ==> !is_white_space(s[n]),
    ensures
        trim_start(s) == s.skip(n),
    decreases s.len(),
{
    if n > 0 {
        assert forall|i: int| 0 <= i < n - 1 implies is_white_space(
            #[trigger] s.drop_first()[i],
        ) by {
            assert(s.drop_first()[i] == s[i + 1]);
        }
        lemma_trim_start(s.drop_first(), n - 1);
        assert(s.drop_first().skip(n - 1) =~= s.skip(n));
    } else {
        assert(s.skip(0) =~= s);
    }
}

/// `trim_end` drops characters of the end only, and leaves no white space there.
pub proof fn lemma_trim_end(s: Seq<char>, n: int)
    requires
        0 <= n <= s.len(),
        forall|i: int| n <= i < s.len() ==> is_white_space(#[trigger] s[i]),
        n > 0 ==> !is_white_space(s[n - 1]),
    ensures
        trim_end(s) == s.take(n),
    decreases s.len(),
{
    if n < s.len() {
        lemma_trim_end(s.drop_last(), n);
        assert(s.drop_last().take(n) =~= s.take(n));
    } else {
        assert(s.take(n) =~= s);
    }
}

/// `first_index` is the least index that holds `c`, or the length.
pub proof fn lemma_first_index(s: Seq<char>, c: char)
    ensures
        0 <= first_index(s, c) <= s.len(),
        forall|i: int| 0 <= i < first_index(s, c) ==> s[i] != c,
        first_index(s, c) < s.len() ==> s[first_index(s, c)] == c,
    decreases s.len(),
{
    if s.len() > 0 && s[0] != c {
        lemma_first_index(s.drop_first(), c);
        let k = first_index(s.drop_first(), c);
        assert forall|i: int| 0 <= i < 1 + k implies s[i] != c by {
            if i > 0 {
                assert(s[i] == s.drop_first()[i - 1]);
            }
        }
    }
}

/// The index found by search is `first_index`.
pub proof fn lemma_is_first_index(s: Seq<char>, c: char, n: int)
    requires
        0 <= n <= s.len(),
        forall|i: int| 0 <= i < n ==> s[i] != c,
        n < s.len() ==> s[n] == c,
    ensures
        first_index(s, c) == n,
{
    lemma_first_index(s, c);
    let k = first_index(s, c);
    if k < n {
        assert(s[k] == c);
    }
}

/// A decimal numeral is made of digits and stands for its number.
pub proof fn lemma_decimal(n: nat)
    ensures
        decimal(n).len() > 0,
        all_digits(decimal(n)),
        digits_value(decimal(n)) == n,
    decreases n,
{
    let last = digit_char(n % 10);
    assert(last as nat == n % 10 + '0' as nat);
    if n < 10 {
        let s = decimal(n);
        assert(s.drop_last() =~= Seq::empty());
        assert(digits_value(s.drop_last()) == 0);
    } else {
        lemma_decimal(n / 10);
        let s = decimal(n);
        assert(s.drop_last() =~= decimal(n / 10));
    }
}

/// The texts of a list that grows by one.
pub proof fn lemma_texts_push(v: Seq<String>, s: String)
    ensures
        texts(v.push(s)) == texts(v).push(s@),
{
    assert(texts(v.push(s)) =~= texts(v).push(s@));
}

/// What comes before one text comes before all that do not.
pub proof fn lemma_comes_before(a: Seq<char>, b: Seq<char>, c: Seq<char>)
    requires
        comes_before(a, b),
        !comes_before(c, b),
    ensures
        comes_before(a, c),
        a != c,
    decreases a.len(),
{
    if a.len() > 0 && c.len() > 0 && a[0] == b[0] && c[0] == b[0] {
        lemma_comes_before(a.skip(1), b.skip(1), c.skip(1));
    }
}

/// What is written in decimal is read back as the same number.
pub proof fn decimal_reads_back(n: nat, max: nat)
    requires
        n <= max,
    ensures
        parsed_number(decimal(n), max) == Some(n),
{
    lemma_decimal(n);
    assert(is_digit(decimal(n)[0]));
}

/// What stands between two texts stands in all three together.
pub proof fn lemma_has_part(a: Seq<char>, part: Seq<char>, b: Seq<char>)
    ensures
        has_part(a + part + b, part),
{
    let s = a + part + b;
    assert(s.subrange(a.len() as int, a.len() as int + part.len()) =~= part);
}

/// Each part but the first and the last stands between two separators.
pub proof fn lemma_joined_part(parts: Seq<Seq<char>>, sep: Seq<char>, k: int)
    requires
        0 < k < parts.len() - 1,
    ensures
        has_part(joined(parts, sep), sep + parts[k] + sep),
    decreases parts.len(),
{
    let front = parts.drop_last();
    let before = joined(front, sep);
    let part = sep + parts[k] + sep;
    if k < front.len() - 1 {
        lemma_joined_part(front, sep, k);
        let i = choose|i: int|
            0 <= i <= before.len() - part.len() && #[trigger] before.subrange(i, i + part.len())
                == part;
        let s = joined(parts, sep);
        assert(s.subrange(i, i + part.len()) =~= before.subrange(i, i + part.len()));
    } else {
        let head = joined(front.drop_last(), sep);
        assert(front.last() == parts[k]);
        lemma_has_part(head, part, parts.last());
        assert(joined(parts, sep) =~= head + part + parts.last());
    }
}

/// A text that neither begins nor ends with white space is left alone by trimming.
pub proof fn lemma_trimmed_stays(s: Seq<char>)
    requires
        s.len() > 0 ==> !is_white_space(s[0]) && !is_white_space(s.last()),
    ensures
        trimmed(s) == s,
{
}

/// Where the trimmed form of a text begins in it.
pub open spec fn trimmed_from(s: Seq<char>) -> int {
    s.len() - trim_start(s).len()
}

/// The trimmed form of a text is a part of it, and begins with its first character where
/// that is no white space.
pub proof fn lemma_trimmed_within(s: Seq<char>)
    ensures
        0 <= trimmed_from(s) <= trimmed_from(s) + trimmed(s).len() <= s.len(),
        trimmed(s) == s.subrange(trimmed_from(s), trimmed_from(s) + trimmed(s).len()),
        s.len() > 0 && !is_white_space(s[0]) ==> trimmed_from(s) == 0,
    decreases s.len(),
{
    lemma_trim_start_within(s);
    lemma_trim_end_within(trim_start(s));
    let n = trimmed_from(s);
    assert(trimmed(s) =~= s.subrange(n, n + trimmed(s).len()));
}

proof fn lemma_trim_start_within(s: Seq<char>)
    ensures
        trim_start(s).len() <= s.len(),
        trim_start(s) == s.skip(s.len() - trim_start(s).len()),
        forall|i: int| 0 <= i < s.len() - trim_start(s).len() ==> is_white_space(#[trigger] s[i]),
    decreases s.len(),
{
    if s.len() > 0 && is_white_space(s[0]) {
        let t = s.drop_first();
        lemma_trim_start_within(t);
        let n = t.len() - trim_start(t).len();
        assert(t.skip(n) =~= s.skip(n + 1));
        assert forall|i: int| 0 <= i < n + 1 implies is_white_space(#[trigger] s[i]) by {
            if i > 0 {
                assert(s[i] == t[i - 1]);
            }
        }
    } else {
        assert(s.skip(0) =~= s);
    }
}

proof fn lemma_trim_end_within(s: Seq<char>)
    ensures
        trim_end(s).len() <= s.len(),
        trim_end(s) == s.take(trim_end(s).len() as int),
        forall|i: int| trim_end(s).len() <= i < s.len() ==> is_white_space(#[trigger] s[i]),
    decreases s.len(),
{
    if s.len() > 0 && is_white_space(s.last()) {
        let t = s.drop_last();
        lemma_trim_end_within(t);
        let n = trim_end(t).len() as int;
        assert(t.take(n) =~= s.take(n));
        assert forall|i: int| n <= i < s.len() implies is_white_space(#[trigger] s[i]) by {
            if i < t.len() {
                assert(s[i] == t[i]);
            }
        }
    } else {
        assert(s.take(s.len() as int) =~= s);
    }
}

/// Trimming drops white space only.
pub proof fn lemma_trimmed_keeps(s: Seq<char>, c: char)
    requires
        !is_white_space(c),
    ensures
        trimmed(s).contains(c) <==> s.contains(c),
{
    lemma_trimmed_within(s);
    lemma_trim_start_within(s);
    let t = trim_start(s);
    lemma_trim_end_within(t);
    let n = s.len() - t.len();
    if s.contains(c) {
        let i = s.lemma_contains_to_index(c);
        assert(i >= n);
        assert(t[i - n] == c);
        assert(trimmed(s)[i - n] == c);
    }
    if trimmed(s).contains(c) {
        let i = trimmed(s).lemma_contains_to_index(c);
        assert(s[i + n] == c);
    }
}

/// Different numbers have different numerals.
pub proof fn lemma_decimal_int_differs(a: int, b: int)
    requires
        a != b,
    ensures
        decimal_int(a) != decimal_int(b),
{
    let x = (if a < 0 { -a } else { a }) as nat;
    let y = (if b < 0 { -b } else { b }) as nat;
    lemma_decimal(x);
    lemma_decimal(y);
    assert(is_digit(decimal(x)[0]));
    assert(is_digit(decimal(y)[0]));
    if decimal_int(a) == decimal_int(b) {
        assert(a < 0 <==> decimal_int(a)[0] == '-');
        assert(b < 0 <==> decimal_int(b)[0] == '-');
        if a < 0 {
            assert(decimal_int(a).skip(1) =~= decimal(x));
            assert(decimal_int(b).skip(1) =~= decimal(y));
        }
    }
}

/// What is made of each element of a list comes in the order of the list.
pub proof fn lemma_filter_map_keeps_all<A, B>(s: Seq<A>, f: spec_fn(A) -> Option<B>)
    requires
        forall|i: int| 0 <= i < s.len() ==> f(#[trigger] s[i]) is Some,
    ensures
        s.filter_map(f).len() == s.len(),
        forall|i: int| 0 <= i < s.len() ==> f(s[i]) == Some(#[trigger] s.filter_map(f)[i]),
    decreases s.len(),
{
    broadcast use Seq::lemma_filter_map_take_succ;

    if s.len() == 0 {
        reveal(Seq::filter_map);
    } else {
        let n = s.len() - 1;
        let front = s.take(n);
        assert forall|i: int| 0 <= i < front.len() implies f(#[trigger] front[i]) is Some by {
            assert(front[i] == s[i]);
        }
        lemma_filter_map_keeps_all(front, f);
        assert(s.take(n + 1) =~= s);
        assert forall|i: int| 0 <= i < s.len() implies f(s[i]) == Some(
            #[trigger] s.filter_map(f)[i],
        ) by {
            if i < n {
                assert(front[i] == s[i]);
            }
        }
    }
}

// ── Operations ───────────────────────────────────────────────────────────

/// The characters of `s`, in order.
pub fn chars_of(s: &str) -> (r: Vec<char>)
    ensures
        r@ == s@,
{
    let mut v: Vec<char> = Vec::new();
    for c in it: s.chars()
        invariant
            it.seq() == s@,
            v@ == s@.take(it.index()),
    {
        v.push(c);
        assert(s@.take(it.index() + 1) =~= s@.take(it.index()).push(c));
    }
    assert(s@.take(s@.len() as int) =~= s@);
    v
}

/// The string made of the characters `v[from..to]`.
pub fn string_of(v: &Vec<char>, from: usize, to: usize) -> (r: String)
    requires
        from <= to <= v@.len(),
    ensures
        r@ == v@.subrange(from as int, to as int),
{
    let mut s = String::new();
    let mut i: usize = from;
    while i < to
        invariant
            from <= i <= to <= v@.len(),
            s@ == v@.subrange(from as int, i as int),
        decreases to - i,
    {
        s.push(v[i]);
        i = i + 1;
        assert(v@.subrange(from as int, i as int) =~= v@.subrange(from as int, i - 1).push(
            v@[i - 1],
        ));
    }
    s
}

/// The string with the characters of `s`.
pub fn owned(s: &str) -> (r: String)
    ensures
        r@ == s@,
{
    String::from_str(s)
}

/// `a` followed by `b`.
pub fn cat(a: &str, b: &str) -> (r: String)
    ensures
        r@ == a@ + b@,
{
    let mut s = String::from_str(a);
    s.append(b);
    s
}

/// `a` followed by `b` and `c`.
pub fn cat3(a: &str, b: &str, c: &str) -> (r: String)
    ensures
        r@ == a@ + b@ + c@,
{
    let mut s = String::from_str(a);
    s.append(b);
    s.append(c);
    s
}

/// Whether `a` and `b` hold the same characters.
pub fn same(a: &str, b: &str) -> (r: bool)
    ensures
        r == (a@ == b@),
{
    let x = chars_of(a);
    let y = chars_of(b);
    if x.len() != y.len() {
        return false;
    }
    let mut i: usize = 0;
    while i < x.len()
        invariant
            i <= x.len(),
            x.len() == y.len(),
            x@ == a@,
            y@ == b@,
            x@.take(i as int) == y@.take(i as int),
        decreases x.len() - i,
    {
        if x[i] != y[i] {
            assert(a@[i as int] != b@[i as int]);
            return false;
        }
        i = i + 1;
        assert(x@.take(i as int) =~= x@.take(i - 1).push(x@[i - 1]));
        assert(y@.take(i as int) =~= y@.take(i - 1).push(y@[i - 1]));
    }
    assert(x@.take(i as int) =~= x@);
    assert(y@.take(i as int) =~= y@);
    true
}

/// Whether `c` has the `White_Space` property.
pub fn white_space(c: char) -> (r: bool)
    ensures
        r == is_white_space(c),
{
    ('\u{9}' <= c && c <= '\u{d}') || c == '\u{20}' || c == '\u{85}' || c == '\u{a0}' || c
        == '\u{1680}' || ('\u{2000}' <= c && c <= '\u{200a}') || c == '\u{2028}' || c
        == '\u{2029}' || c == '\u{202f}' || c == '\u{205f}' || c == '\u{3000}'
}

/// `s` without white space at either end.
pub fn trim<'a>(s: &'a str) -> (r: &'a str)
    ensures
        r@ == trimmed(s@),
{
    let v = chars_of(s);
    let mut from: usize = 0;
    while from < v.len() && white_space(v[from])
        invariant
            from <= v.len(),
            v@ == s@,
            forall|i: int| 0 <= i < from ==> is_white_space(#[trigger] s@[i]),
        decreases v.len() - from,
    {
        from = from + 1;
    }
    let mut to: usize = v.len();
    while to > from && white_space(v[to - 1])
        invariant
            from <= to <= v.len(),
            v@ == s@,
            forall|i: int| to <= i < s@.len() ==> is_white_space(#[trigger] s@[i]),
        decreases to,
    {
        to = to - 1;
    }
    proof {
        lemma_trim_start(s@, from as int);
        let rest = s@.skip(from as int);
        assert forall|i: int| to - from <= i < rest.len() implies is_white_space(
            #[trigger] rest[i],
        ) by {
            assert(rest[i] == s@[i + from]);
        }
        lemma_trim_end(rest, to - from);
        assert(rest.take(to - from) =~= s@.subrange(from as int, to as int));
    }
    s.substring_char(from, to)
}

/// Whether `s` begins with `p`, and what follows it there.
pub fn strip_prefix<'a>(s: &'a str, p: &str) -> (r: Option<&'a str>)
    ensures
        r is Some == starts_with(s@, p@),
        r matches Some(rest) ==> rest@ == s@.skip(p@.len() as int),
{
    let n = s.unicode_len();
    let k = p.unicode_len();
    if n < k {
        return None;
    }
    let head = s.substring_char(0, k);
    assert(s@.subrange(0, k as int) =~= s@.take(k as int));
    if same(head, p) {
        assert(s@.subrange(k as int, n as int) =~= s@.skip(k as int));
        Some(s.substring_char(k, n))
    } else {
        None
    }
}

/// Whether `s` ends with `p`, and what precedes it there.
pub fn strip_suffix<'a>(s: &'a str, p: &str) -> (r: Option<&'a str>)
    ensures
        r is Some == ends_with(s@, p@),
        r matches Some(rest) ==> rest@ == s@.take(s@.len() - p@.len()),
{
    let n = s.unicode_len();
    let k = p.unicode_len();
    if n < k {
        return None;
    }
    let tail = s.substring_char(n - k, n);
    assert(s@.subrange(n - k, n as int) =~= s@.skip(n - k));
    if same(tail, p) {
        assert(s@.subrange(0, n - k) =~= s@.take(n - k));
        Some(s.substring_char(0, n - k))
    } else {
        None
    }
}

/// The index of the first `c` in `v`, or its length.
pub fn find_char(v: &Vec<char>, c: char) -> (r: usize)
    ensures
        r == first_index(v@, c),
        r <= v@.len(),
{
    let mut i: usize = 0;
    while i < v.len() && v[i] != c
        invariant
            i <= v.len(),
            forall|j: int| 0 <= j < i ==> v@[j] != c,
        decreases v.len() - i,
    {
        i = i + 1;
    }
    proof {
        lemma_is_first_index(v@, c, i as int);
    }
    i
}

/// Whether `c` occurs in `s`.
pub fn has_char(s: &str, c: char) -> (r: bool)
    ensures
        r == s@.contains(c),
{
    let v = chars_of(s);
    let i = find_char(&v, c);
    proof {
        lemma_first_index(s@, c);
    }
    i < v.len()
}

/// What stands before and after the first `c` in `s`.
pub fn split_at_char<'a>(s: &'a str, c: char) -> (r: Option<(&'a str, &'a str)>)
    ensures
        r is Some == s@.contains(c),
        r matches Some((a, b)) ==> a@ == s@.take(first_index(s@, c)) && b@ == s@.skip(
            first_index(s@, c) + 1,
        ),
{
    let v = chars_of(s);
    let i = find_char(&v, c);
    proof {
        lemma_first_index(s@, c);
    }
    if i < v.len() {
        assert(s@[i as int] == c);
        assert(s@.subrange(0, i as int) =~= s@.take(i as int));
        assert(s@.subrange(i + 1, s@.len() as int) =~= s@.skip(i + 1));
        Some((s.substring_char(0, i), s.substring_char(i + 1, v.len())))
    } else {
        None
    }
}

/// The unsigned decimal number that `s` holds, where it holds one of at most `max`.
pub fn parse_number(s: &str, max: u64) -> (r: Option<u64>)
    ensures
        r is Some == parsed_number(s@, max as nat) is Some,
        r matches Some(n) ==> parsed_number(s@, max as nat) == Some(n as nat),
{
    let v = chars_of(s);
    let mut i: usize = 0;
    if v.len() > 0 && v[0] == '+' {
        i = 1;
    }
    let ghost digits = s@.skip(i as int);
    proof {
        if i == 1 {
            assert(digits =~= s@.drop_first());
        } else {
            assert(digits =~= s@);
        }
    }
    if i == v.len() {
        return None;
    }
    let start: usize = i;
    let mut n: u64 = 0;
    while i < v.len()
        invariant
            start <= i <= v.len(),
            v@ == s@,
            digits == s@.skip(start as int),
            n == digits_value(digits.take(i - start)),
            n <= max,
            all_digits(digits.take(i - start)),
            parsed_number(s@, max as nat) == if digits.len() > 0 && all_digits(digits)
                && digits_value(digits) <= max as nat {
                Some(digits_value(digits))
            } else {
                None::<nat>
            },
        decreases v.len() - i,
    {
        let c = v[i];
        let ghost k = i - start;
        assert(digits[k] == c);
        if !('0' <= c && c <= '9') {
            assert(!is_digit(digits[k]));
            return None;
        }
        let d: u64 = c as u64 - '0' as u64;
        proof {
            let t = digits.take(k + 1);
            assert(t.drop_last() =~= digits.take(k));
            assert(t.last() == c);
            assert(digits_value(t) == n * 10 + d);
            assert forall|j: int| 0 <= j < t.len() implies is_digit(#[trigger] t[j]) by {
                if j < k {
                    assert(t[j] == digits.take(k)[j]);
                }
            }
            lemma_digits_value_grows(digits, k + 1);
        }
        if n > (u64::MAX - d) / 10 || n * 10 + d > max {
            return None;
        }
        n = n * 10 + d;
        i = i + 1;
    }
    assert(digits.take(i - start) =~= digits);
    Some(n)
}

/// A longer run of digits never stands for a smaller number.
proof fn lemma_digits_value_grows(s: Seq<char>, k: int)
    requires
        0 <= k <= s.len(),
    ensures
        digits_value(s.take(k)) <= digits_value(s),
    decreases s.len(),
{
    if k < s.len() {
        lemma_digits_value_grows(s.drop_last(), k);
        assert(s.drop_last().take(k) =~= s.take(k));
    } else {
        assert(s.take(k) =~= s);
    }
}

/// The decimal digits of `n`.
pub fn number_text(n: u64) -> (r: String)
    ensures
        r@ == decimal(n as nat),
    decreases n,
{
    let d: u8 = (n % 10) as u8;
    let c: char = (d + 48u8) as char;
    assert(c == digit_char((n % 10) as nat));
    if n < 10 {
        let mut s = String::new();
        s.push(c);
        assert(s@ =~= seq![digit_char(n as nat)]);
        s
    } else {
        let mut s = number_text(n / 10);
        s.push(c);
        s
    }
}

/// The decimal digits of `n`, with its sign where it is negative.
pub fn integer_text(n: i64) -> (r: String)
    ensures
        r@ == decimal_int(n as int),
{
    if n < 0 {
        let magnitude: u64 = if n == i64::MIN {
            9223372036854775808
        } else {
            (-n) as u64
        };
        let digits = number_text(magnitude);
        let mut s = String::new();
        s.push('-');
        s.append(digits.as_str());
        assert(s@ =~= seq!['-'] + decimal((-(n as int)) as nat));
        s
    } else {
        number_text(n as u64)
    }
}

/// `c` with an ASCII capital made small.
pub fn lower_char(c: char) -> (r: char)
    ensures
        r == lower(c),
{
    if 'A' <= c && c <= 'Z' {
        (c as u8 + 32) as char
    } else {
        c
    }
}

/// `c` with an ASCII small letter made a capital.
pub fn upper_char(c: char) -> (r: char)
    ensures
        r == upper(c),
{
    if 'a' <= c && c <= 'z' {
        (c as u8 - 32) as char
    } else {
        c
    }
}

/// `s` with its ASCII capitals made small.
pub fn to_lower(s: &str) -> (r: String)
    ensures
        r@ == lowered(s@),
{
    let v = chars_of(s);
    let mut out = String::new();
    let mut i: usize = 0;
    while i < v.len()
        invariant
            i <= v.len(),
            v@ == s@,
            out@ == lowered(s@.take(i as int)),
        decreases v.len() - i,
    {
        out.push(lower_char(v[i]));
        i = i + 1;
        assert(lowered(s@.take(i as int)) =~= lowered(s@.take(i - 1)).push(lower(s@[i - 1])));
    }
    assert(s@.take(i as int) =~= s@);
    out
}

/// `s` with its ASCII small letters made capitals.
pub fn to_upper(s: &str) -> (r: String)
    ensures
        r@ == uppered(s@),
{
    let v = chars_of(s);
    let mut out = String::new();
    let mut i: usize = 0;
    while i < v.len()
        invariant
            i <= v.len(),
            v@ == s@,
            out@ == uppered(s@.take(i as int)),
        decreases v.len() - i,
    {
        out.push(upper_char(v[i]));
        i = i + 1;
        assert(uppered(s@.take(i as int)) =~= uppered(s@.take(i - 1)).push(upper(s@[i - 1])));
    }
    assert(s@.take(i as int) =~= s@);
    out
}

/// Whether `a` and `b` differ in the case of ASCII letters at most.
pub fn same_ignoring_case(a: &str, b: &str) -> (r: bool)
    ensures
        r == (lowered(a@) == lowered(b@)),
{
    same(to_lower(a).as_str(), to_lower(b).as_str())
}

/// Whether `a` comes before `b`.
pub fn sorts_before(a: &str, b: &str) -> (r: bool)
    ensures
        r == comes_before(a@, b@),
{
    let x = chars_of(a);
    let y = chars_of(b);
    let mut i: usize = 0;
    assert(x@.skip(0) =~= x@);
    assert(y@.skip(0) =~= y@);
    while i < x.len() && i < y.len() && x[i] == y[i]
        invariant
            i <= x@.len(),
            i <= y@.len(),
            comes_before(x@.skip(i as int), y@.skip(i as int)) == comes_before(x@, y@),
        decreases x@.len() - i,
    {
        assert(x@.skip(i as int).skip(1) =~= x@.skip(i + 1));
        assert(y@.skip(i as int).skip(1) =~= y@.skip(i + 1));
        i = i + 1;
    }
    if i >= y.len() {
        false
    } else if i >= x.len() {
        true
    } else {
        x[i] < y[i]
    }
}

/// The lines of `s`.
pub fn split_lines(s: &str) -> (r: Vec<String>)
    ensures
        texts(r@) == lines(s@),
{
    let v = chars_of(s);
    let mut out: Vec<String> = Vec::new();
    let mut start: usize = 0;
    assert(v@.skip(0) =~= v@);
    assert(texts(out@) + lines(v@.skip(0)) =~= lines(v@));
    while start < v.len()
        invariant
            start <= v@.len(),
            texts(out@) + lines(v@.skip(start as int)) == lines(v@),
        decreases v@.len() - start,
    {
        let ghost rest = v@.skip(start as int);
        let mut end: usize = start;
        while end < v.len() && v[end] != '\n'
            invariant
                start <= end <= v@.len(),
                forall|i: int| start <= i < end ==> v@[i] != '\n',
            decreases v@.len() - end,
        {
            end = end + 1;
        }
        proof {
            lemma_is_first_index(rest, '\n', end - start);
        }
        let ghost before = out@;
        if end == v.len() {
            let line = string_of(&v, start, end);
            assert(line@ =~= rest);
            out.push(line);
            proof {
                lemma_texts_push(before, line);
            }
            assert(lines(v@.skip(end as int)) =~= Seq::empty());
            assert(texts(out@) + lines(v@.skip(end as int)) =~= texts(before) + lines(rest));
            start = end;
        } else {
            let stop: usize = if end > start && v[end - 1] == '\r' { end - 1 } else { end };
            let line = string_of(&v, start, stop);
            assert(line@ =~= without_return(rest.take(end - start)));
            out.push(line);
            proof {
                lemma_texts_push(before, line);
            }
            assert(rest.skip(end - start + 1) =~= v@.skip(end + 1));
            assert(texts(out@) + lines(v@.skip(end + 1)) =~= texts(before) + lines(rest));
            start = end + 1;
        }
    }
    assert(v@.skip(start as int) =~= Seq::empty());
    assert(texts(out@) + lines(v@.skip(start as int)) =~= texts(out@));
    out
}

/// The parts, one after the other, with `sep` between each two.
pub fn join(parts: &Vec<String>, sep: &str) -> (r: String)
    ensures
        r@ == joined(texts(parts@), sep@),
{
    let mut out = String::new();
    let mut i: usize = 0;
    while i < parts.len()
        invariant
            i <= parts.len(),
            out@ == joined(texts(parts@).take(i as int), sep@),
        decreases parts.len() - i,
    {
        if i > 0 {
            out.append(sep);
        }
        out.append(parts[i].as_str());
        i = i + 1;
        proof {
            let t = texts(parts@).take(i as int);
            assert(t.drop_last() =~= texts(parts@).take(i - 1));
            assert(t.last() == parts@[i - 1]@);
            if i == 1 {
                assert(out@ =~= t[0]);
            }
        }
    }
    assert(texts(parts@).take(i as int) =~= texts(parts@));
    out
}

/// A list with the same strings.
pub fn copied(list: &Vec<String>) -> (r: Vec<String>)
    ensures
        texts(r@) == texts(list@),
{
    let mut out: Vec<String> = Vec::new();
    let mut i: usize = 0;
    while i < list.len()
        invariant
            i <= list.len(),
            texts(out@) == texts(list@).take(i as int),
        decreases list.len() - i,
    {
        let ghost before = out@;
        out.push(owned(list[i].as_str()));
        i = i + 1;
        assert(texts(out@) =~= texts(before).push(list@[i - 1]@));
        assert(texts(list@).take(i as int) =~= texts(list@).take(i - 1).push(list@[i - 1]@));
    }
    assert(texts(list@).take(i as int) =~= texts(list@));
    out
}

} // verus!
