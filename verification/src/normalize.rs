//! Text as the search compares it.
//!
//! Applied to what is stored beside each searchable column and to what is searched
//! for, so that accents, letter case, full or half width and the two kana scripts
//! make no difference.
//!
//! In order: compatibility decomposition (NFKD), combining marks dropped, katakana
//! turned to hiragana, lower case.

use unicode_normalization::char::is_combining_mark;
use unicode_normalization::UnicodeNormalization;
use vstd::prelude::*;

verus! {

/// The compatibility decomposition of a text, as
/// `unicode_normalization::UnicodeNormalization::nfkd` gives it.
pub uninterp spec fn nfkd_form(s: Seq<char>) -> Seq<char>;

/// Whether a character is a combining mark, as
/// `unicode_normalization::char::is_combining_mark` says.
pub uninterp spec fn combining_mark(c: char) -> bool;

/// The lower-case mapping of a character, as `char::to_lowercase` gives it.
pub uninterp spec fn lowercase_form(c: char) -> Seq<char>;

/// Whether a hiragana letter carries a sound mark, and so is decomposed into a letter
/// and a mark.
pub open spec fn voiced(c: char) -> bool {
    let n = c as int;
    ||| 0x304C <= n <= 0x3062 && n % 2 == 0
    ||| n == 0x3065 || n == 0x3067 || n == 0x3069
    ||| 0x3070 <= n <= 0x307D && n % 3 != 0
    ||| n == 0x3094
}

/// Whether a Latin, Greek, Cyrillic or Armenian letter, or one of the signs among them,
/// is neither decomposed nor a mark nor a capital.
pub open spec fn is_small_western(c: char) -> bool {
    let n = c as int;
    ||| n <= 0x7F && !('A' <= c <= 'Z')
    ||| 0xA1 <= n <= 0xA7 || n == 0xA9 || 0xAB <= n <= 0xAE || 0xB0 <= n <= 0xB1
    ||| 0xB6 <= n <= 0xB7 || n == 0xBB || n == 0xBF || n == 0xD7
    ||| n == 0xDF || n == 0xE6 || n == 0xF0 || 0xF7 <= n <= 0xF8 || n == 0xFE
    ||| n == 0x111 || n == 0x127 || n == 0x131 || n == 0x138
    ||| n == 0x142 || n == 0x14B || n == 0x153 || n == 0x167
    ||| 0x3B1 <= n <= 0x3C9
    ||| 0x430 <= n <= 0x438 || 0x43A <= n <= 0x44F
    ||| n == 0x452 || 0x454 <= n <= 0x456 || 0x458 <= n <= 0x45B || n == 0x45F
    ||| 0x561 <= n <= 0x586
    ||| n == 0x2010 || 0x2012 <= n <= 0x2016 || 0x2018 <= n <= 0x2023
}

/// Whether a letter of a script without capitals, or one of the signs among them, is
/// neither decomposed nor a mark: Hebrew, Arabic, Thai, Georgian, the letters that make
/// up Hangul, kana without a sound mark, the long-vowel mark, and Chinese characters.
pub open spec fn is_caseless(c: char) -> bool {
    let n = c as int;
    ||| 0x5D0 <= n <= 0x5EA
    ||| 0x627 <= n <= 0x64A
    ||| 0xE01 <= n <= 0xE30 || n == 0xE32
    ||| 0x10D0 <= n <= 0x10FA
    ||| 0x1100 <= n <= 0x11FF
    ||| 0x3001 <= n <= 0x3029 || 0x3030 <= n <= 0x3035
    ||| 0x3041 <= n <= 0x3096 && !voiced(c)
    ||| n == 0x309D || 0x30FB <= n <= 0x30FD
    ||| 0x3400 <= n <= 0x4DBF
    ||| 0x4E00 <= n <= 0x9FFF
    ||| 0x20000 <= n <= 0x2A6DF
}

/// How far behind a capital its small letter stands; zero for what is no capital or is
/// decomposed.
pub open spec fn to_small(c: char) -> int {
    let n = c as int;
    if 'A' <= c <= 'Z' || n == 0xC6 || n == 0xD0 || n == 0xD8 || n == 0xDE {
        32
    } else if n == 0x110 || n == 0x126 || n == 0x141 || n == 0x14A || n == 0x152 || n == 0x166 {
        1
    } else if 0x391 <= n <= 0x3A9 && n != 0x3A2 {
        32
    } else if n == 0x402 || 0x404 <= n <= 0x406 || 0x408 <= n <= 0x40B || n == 0x40F {
        80
    } else if 0x410 <= n <= 0x42F && n != 0x419 {
        32
    } else if 0x531 <= n <= 0x556 {
        48
    } else {
        0
    }
}

/// The small letter of a plain one.
pub open spec fn small(c: char) -> char {
    (c as int + to_small(c)) as char
}

pub open spec fn all_small(s: Seq<char>) -> Seq<char> {
    s.map_values(|c: char| small(c))
}

/// Whether a character is neither decomposed nor a mark, and its small letter is known.
pub open spec fn is_plain(c: char) -> bool {
    is_small_western(c) || is_caseless(c) || to_small(c) != 0
}

/// A small letter is plain and its own small letter.
proof fn lemma_small(c: char)
    requires
        is_plain(c),
    ensures
        is_plain(small(c)),
        small(small(c)) == small(c),
{
    assert(small(c) as int == c as int + to_small(c));
}

pub open spec fn all_plain(s: Seq<char>) -> bool {
    forall|i: int| 0 <= i < s.len() ==> is_plain(#[trigger] s[i])
}

/// `UnicodeNormalization::nfkd` on a string slice, its characters collected. The
/// result depends on the text alone, and plain text is its own decomposition: the
/// tables list none of its characters, and none has a combining class.
#[verifier::external_body]
fn nfkd(s: &str) -> (r: Vec<char>)
    ensures
        r@ == nfkd_form(s@),
        all_plain(s@) ==> r@ == s@,
{
    s.nfkd().collect()
}

/// `unicode_normalization::char::is_combining_mark`. The result depends on the
/// character alone, and no plain character is a mark.
#[verifier::external_body]
fn mark(c: char) -> (r: bool)
    ensures
        r == combining_mark(c),
        is_plain(c) ==> !r,
{
    is_combining_mark(c)
}

/// `char::to_lowercase`, its characters collected. The result depends on the
/// character alone. The capitals among the plain characters become their small letters,
/// as the Unicode Character Database has them; every other plain character stays.
#[verifier::external_body]
fn lowercase(c: char) -> (r: Vec<char>)
    ensures
        r@ == lowercase_form(c),
        is_plain(c) ==> r@ == seq![small(c)],
{
    c.to_lowercase().collect()
}

/// `char::from_u32`: the character of a code point, where it is a Unicode scalar
/// value.
pub assume_specification[ char::from_u32 ](i: u32) -> (r: Option<char>)
    ensures
        r is Some == (i <= 0xD7FF || 0xE000 <= i <= 0x10FFFF),
        r matches Some(c) ==> c == i as char,
;

/// The hiragana letter of a katakana one from U+30A1 to U+30F6, and every other
/// character as it is.
pub open spec fn hiragana(c: char) -> char {
    if '\u{30A1}' <= c <= '\u{30F6}' {
        (c as u32 - 0x60) as char
    } else {
        c
    }
}

/// What is left of a decomposition without its marks, with every katakana letter turned
/// to hiragana.
pub open spec fn letters(decomposed: Seq<char>) -> Seq<char>
    decreases decomposed.len(),
{
    if decomposed.len() == 0 {
        decomposed
    } else if combining_mark(decomposed.last()) {
        letters(decomposed.drop_last())
    } else {
        letters(decomposed.drop_last()).push(hiragana(decomposed.last()))
    }
}

/// What a character of a decomposition contributes to the search form.
pub open spec fn folded_char(c: char) -> Seq<char> {
    if combining_mark(c) {
        Seq::empty()
    } else {
        lowercase_form(hiragana(c))
    }
}

/// The search form of a text that is already decomposed.
pub open spec fn folded(decomposed: Seq<char>) -> Seq<char> {
    decomposed.flat_map(|c: char| folded_char(c))
}

/// The search form of a text.
pub open spec fn search_form(s: Seq<char>) -> Seq<char> {
    folded(nfkd_form(s))
}

/// Whether a text is left alone by every step.
pub open spec fn in_search_form(s: Seq<char>) -> bool {
    &&& nfkd_form(s) == s
    &&& forall|i: int| 0 <= i < s.len() ==> folded_char(#[trigger] s[i]) == seq![s[i]]
}

/// Turn katakana to hiragana.
pub fn to_hiragana(c: char) -> (r: char)
    ensures
        r == hiragana(c),
{
    if '\u{30A1}' <= c && c <= '\u{30F6}' {
        match char::from_u32(c as u32 - 0x60) {
            Some(h) => h,
            None => c,
        }
    } else {
        c
    }
}

/// Fold a text that is already decomposed: drop marks, turn katakana to hiragana
/// and lower the case.
pub fn fold(decomposed: &Vec<char>) -> (r: String)
    ensures
        r@ == folded(decomposed@),
        all_plain(letters(decomposed@)) ==> r@ == all_small(letters(decomposed@)),
        all_plain(decomposed@) ==> letters(decomposed@) == decomposed@,
{
    let mut out = String::new();
    let ghost f = |c: char| folded_char(c);
    let mut i: usize = 0;
    assert(decomposed@.take(0) =~= Seq::empty());
    assert(all_small(Seq::<char>::empty()) =~= Seq::empty());
    assert(letters(decomposed@.take(0)) =~= Seq::empty());
    while i < decomposed.len()
        invariant
            i <= decomposed.len(),
            f == (|c: char| folded_char(c)),
            out@ == decomposed@.take(i as int).flat_map(f),
            all_plain(letters(decomposed@.take(i as int))) ==> out@ == all_small(
                letters(decomposed@.take(i as int)),
            ),
            all_plain(decomposed@) ==> letters(decomposed@.take(i as int)) == decomposed@.take(
                i as int,
            ),
        decreases decomposed.len() - i,
    {
        let c = decomposed[i];
        let ghost before = out@;
        if !mark(c) {
            let lower = lowercase(to_hiragana(c));
            let mut k: usize = 0;
            while k < lower.len()
                invariant
                    k <= lower.len(),
                    out@ == before + lower@.take(k as int),
                decreases lower.len() - k,
            {
                out.push(lower[k]);
                k = k + 1;
                assert(lower@.take(k as int) =~= lower@.take(k - 1).push(lower@[k - 1]));
                assert(out@ =~= before + lower@.take(k as int));
            }
            assert(lower@.take(k as int) =~= lower@);
            assert(out@ == before + folded_char(c));
            assert(is_plain(hiragana(c)) ==> out@ =~= before.push(small(hiragana(c))));
        } else {
            assert(out@ =~= before + folded_char(c));
        }
        i = i + 1;
        proof {
            let t = decomposed@.take(i - 1);
            assert(decomposed@.take(i as int) =~= t.push(c));
            t.lemma_flat_map_push(f, c);
            assert(t.push(c).drop_last() =~= t);
            let l = letters(t);
            let h = hiragana(c);
            assert(all_small(l.push(h)) =~= all_small(l).push(small(h)));
            if !combining_mark(c) && all_plain(l.push(h)) {
                assert(is_plain(l.push(h)[l.len() as int]));
                assert forall|k: int| 0 <= k < l.len() implies is_plain(#[trigger] l[k]) by {
                    assert(is_plain(l.push(h)[k]));
                }
            }
            if all_plain(decomposed@) {
                assert(is_plain(decomposed@[i - 1]));
                assert(hiragana(c) == c);
            }
        }
    }
    assert(decomposed@.take(i as int) =~= decomposed@);
    out
}

/// The search form of `s`. Where decomposing and dropping the marks leaves plain letters,
/// it is these in lower case: so it is with accented, full-width and kana text.
pub fn for_search(s: &str) -> (r: String)
    ensures
        r@ == search_form(s@),
        all_plain(letters(nfkd_form(s@))) ==> r@ == all_small(letters(nfkd_form(s@))),
        all_plain(s@) ==> nfkd_form(s@) == s@ && letters(s@) == s@ && r@ == all_small(s@),
{
    let decomposed = nfkd(s);
    fold(&decomposed)
}

/// A text that every step leaves alone is its own search form: taking the search
/// form again changes nothing.
pub proof fn search_form_is_kept(s: Seq<char>)
    requires
        in_search_form(s),
    ensures
        search_form(s) == s,
{
    lemma_folded_keeps(s);
}

/// Taking the search form twice is taking it once, of every text of which decomposing
/// and dropping the marks leaves plain letters.
pub proof fn searching_twice_is_searching_once(s: &str, once: String, again: &str, twice: String)
    requires
        call_ensures(for_search, (s,), once),
        again@ == once@,
        call_ensures(for_search, (again,), twice),
        all_plain(letters(nfkd_form(s@))),
    ensures
        twice@ == once@,
{
    let l = letters(nfkd_form(s@));
    assert forall|i: int| 0 <= i < once@.len() implies is_plain(#[trigger] once@[i]) by {
        assert(is_plain(l[i]));
        lemma_small(l[i]);
    }
    assert forall|i: int| 0 <= i < once@.len() implies small(#[trigger] once@[i]) == once@[i] by {
        assert(is_plain(l[i]));
        lemma_small(l[i]);
    }
    assert(all_small(once@) =~= once@);
}

/// Texts that differ only in accents, width and the kind of kana, so that the same
/// letters are left of both, have one search form.
pub proof fn accents_width_and_kana_make_no_difference(a: Seq<char>, b: Seq<char>)
    requires
        letters(nfkd_form(a)) == letters(nfkd_form(b)),
    ensures
        search_form(a) == search_form(b),
{
    lemma_folded_letters(nfkd_form(a));
    lemma_folded_letters(nfkd_form(b));
}

/// Nor does the case of plain letters make a difference.
pub proof fn case_makes_no_difference(a: &str, form_a: String, b: &str, form_b: String)
    requires
        call_ensures(for_search, (a,), form_a),
        call_ensures(for_search, (b,), form_b),
        all_plain(letters(nfkd_form(a@))),
        all_plain(letters(nfkd_form(b@))),
        all_small(letters(nfkd_form(a@))) == all_small(letters(nfkd_form(b@))),
    ensures
        form_a@ == form_b@,
{
}

proof fn lemma_folded_letters(decomposed: Seq<char>)
    ensures
        folded(decomposed) == letters(decomposed).flat_map(|c: char| lowercase_form(c)),
    decreases decomposed.len(),
{
    let f = |c: char| folded_char(c);
    let g = |c: char| lowercase_form(c);
    if decomposed.len() > 0 {
        let t = decomposed.drop_last();
        let c = decomposed.last();
        lemma_folded_letters(t);
        t.lemma_flat_map_push(f, c);
        assert(t.push(c) =~= decomposed);
        if combining_mark(c) {
            assert(folded(decomposed) =~= folded(t));
        } else {
            letters(t).lemma_flat_map_push(g, hiragana(c));
        }
    } else {
        assert(folded(decomposed) =~= Seq::empty());
        assert(letters(decomposed).flat_map(g) =~= Seq::empty());
    }
}

proof fn lemma_folded_keeps(s: Seq<char>)
    requires
        forall|i: int| 0 <= i < s.len() ==> folded_char(#[trigger] s[i]) == seq![s[i]],
    ensures
        folded(s) == s,
    decreases s.len(),
{
    let f = |c: char| folded_char(c);
    if s.len() > 0 {
        let t = s.drop_last();
        assert forall|i: int| 0 <= i < t.len() implies folded_char(#[trigger] t[i]) == seq![
            t[i],
        ] by {
            assert(t[i] == s[i]);
        }
        lemma_folded_keeps(t);
        t.lemma_flat_map_push(f, s.last());
        assert(t.push(s.last()) =~= s);
        assert(folded_char(s[s.len() - 1]) == seq![s.last()]);
        assert(folded(s) =~= s);
    } else {
        assert(folded(s) =~= s);
    }
}

/// Every katakana letter becomes the hiragana letter that stands as far back in Unicode as
/// the one script before the other; every other character stays.
pub proof fn kana_are_turned_one_by_one(c: char, r: char)
    requires
        call_ensures(to_hiragana, (c,), r),
    ensures
        0x30A1 <= c as u32 <= 0x30F6 ==> r as u32 == c as u32 - 0x60,
        !(0x30A1 <= c as u32 <= 0x30F6) ==> r == c,
{
}

} // verus!
