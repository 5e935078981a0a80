//! Paths as text: their components, and what they have in common.

use vstd::prelude::*;

use crate::text;

verus! {

/// A component of a path: the characters `from..to`.
#[derive(Debug, Clone, Copy, PartialEq, Eq, Structural)]
pub struct Span {
    pub from: usize,
    pub to: usize,
}

/// Where the component that begins at `from` ends: at the next separator, or at
/// the end of the path.
pub open spec fn segment_end(s: Seq<char>, from: int) -> int
    decreases s.len() - from,
{
    if from < 0 || from >= s.len() || s[from] == '/' {
        from
    } else {
        segment_end(s, from + 1)
    }
}

/// Whether the characters `from..to` name something: not nothing, and not the
/// directory they stand in.
pub open spec fn names_something(s: Seq<char>, from: int, to: int) -> bool {
    to > from && !(to == from + 1 && s[from] == '.')
}

/// The components from `from` on.
pub open spec fn spans(s: Seq<char>, from: int) -> Seq<(int, int)>
    decreases s.len() + 1 - from,
{
    if from < 0 || from > s.len() {
        Seq::empty()
    } else {
        let end = segment_end(s, from);
        let rest = if from <= end <= s.len() {
            spans(s, end + 1)
        } else {
            Seq::empty()
        };
        if names_something(s, from, end) {
            seq![(from, end)] + rest
        } else {
            rest
        }
    }
}

/// The components of a path: the root of an absolute one, the dot that a relative
/// one may begin with, and the names between separators. Separators in a row count
/// as one, and a dot elsewhere is passed over.
pub open spec fn components(s: Seq<char>) -> Seq<(int, int)> {
    if s.len() > 0 && s[0] == '/' {
        seq![(0int, 1int)] + spans(s, 1)
    } else if s.len() > 0 && s[0] == '.' && segment_end(s, 0) == 1 {
        seq![(0int, 1int)] + spans(s, 1)
    } else {
        spans(s, 0)
    }
}

/// The text of component `i`.
pub open spec fn component(s: Seq<char>, i: int) -> Seq<char> {
    s.subrange(components(s)[i].0, components(s)[i].1)
}

/// Whether `path` is `root` or lies under it: its components begin with those of
/// `root`.
pub open spec fn lies_under(path: Seq<char>, root: Seq<char>) -> bool {
    &&& components(root).len() <= components(path).len()
    &&& forall|i: int|
        0 <= i < components(root).len() ==> #[trigger] component(path, i) == component(root, i)
}

/// What is left of a path after its first `n` components.
pub open spec fn remainder(s: Seq<char>, n: int) -> Seq<char> {
    if n >= components(s).len() {
        Seq::empty()
    } else {
        s.subrange(components(s)[n].0, components(s).last().1)
    }
}

/// The last component, where it is the name of a file or directory.
pub open spec fn file_name_of(s: Seq<char>) -> Option<Seq<char>> {
    if components(s).len() == 0 {
        None
    } else {
        let last = component(s, components(s).len() - 1);
        if last == "/"@ || last == "."@ || last == ".."@ {
            None
        } else {
            Some(last)
        }
    }
}

/// Spans within a path, in order.
pub open spec fn in_order(s: Seq<char>, v: Seq<(int, int)>) -> bool {
    &&& forall|i: int| 0 <= i < v.len() ==> 0 <= (#[trigger] v[i]).0 < v[i].1 <= s.len()
    &&& forall|i: int, j: int|
        0 <= i < j < v.len() ==> (#[trigger] v[i]).1 <= (#[trigger] v[j]).0
}

proof fn lemma_segment_end(s: Seq<char>, from: int)
    requires
        0 <= from <= s.len(),
    ensures
        from <= segment_end(s, from) <= s.len(),
        forall|i: int| from <= i < segment_end(s, from) ==> s[i] != '/',
        segment_end(s, from) < s.len() ==> s[segment_end(s, from)] == '/',
    decreases s.len() - from,
{
    if from < s.len() && s[from] != '/' {
        lemma_segment_end(s, from + 1);
    }
}

proof fn lemma_is_segment_end(s: Seq<char>, from: int, to: int)
    requires
        0 <= from <= to <= s.len(),
        forall|i: int| from <= i < to ==> s[i] != '/',
        to < s.len() ==> s[to] == '/',
    ensures
        segment_end(s, from) == to,
    decreases to - from,
{
    if from < to {
        lemma_is_segment_end(s, from + 1, to);
    }
}

proof fn lemma_spans(s: Seq<char>, from: int)
    requires
        0 <= from,
    ensures
        in_order(s, spans(s, from)),
        forall|i: int| 0 <= i < spans(s, from).len() ==> from <= (#[trigger] spans(s, from)[i]).0,
    decreases s.len() + 1 - from,
{
    if from <= s.len() {
        lemma_segment_end(s, from);
        let end = segment_end(s, from);
        lemma_spans(s, end + 1);
    }
}

/// The components of a path lie within it, in order and apart from each other.
pub proof fn components_in_order(s: Seq<char>)
    ensures
        in_order(s, components(s)),
{
    if s.len() > 0 && (s[0] == '/' || (s[0] == '.' && segment_end(s, 0) == 1)) {
        lemma_spans(s, 1);
    } else {
        lemma_spans(s, 0);
    }
}

pub open spec fn spans_view(v: Seq<Span>) -> Seq<(int, int)> {
    v.map_values(|p: Span| (p.from as int, p.to as int))
}

/// The components of the path `v`.
fn split(v: &Vec<char>) -> (r: Vec<Span>)
    ensures
        spans_view(r@) == components(v@),
{
    let n: usize = v.len();
    let mut out: Vec<Span> = Vec::new();
    let mut from: usize = 0;
    if n > 0 && (v[0] == '/' || (v[0] == '.' && (n == 1 || v[1] == '/'))) {
        proof {
            if v@[0] == '.' {
                lemma_is_segment_end(v@, 0, 1);
            }
        }
        out.push(Span { from: 0, to: 1 });
        from = 1;
    } else {
        proof {
            if n > 0 && v@[0] == '.' {
                lemma_segment_end(v@, 0);
            }
        }
    }
    let ghost start = out@;
    assert(components(v@) =~= spans_view(start) + spans(v@, from as int));
    let mut done = false;
    assert(spans_view(out@) + spans(v@, from as int) =~= components(v@));
    while !done
        invariant
            n == v@.len(),
            from <= n,
            done ==> spans_view(out@) == components(v@),
            !done ==> spans_view(out@) + spans(v@, from as int) == components(v@),
        decreases n - from + (if done { 0int } else { 1int }),
    {
        let mut to: usize = from;
        while to < n && v[to] != '/'
            invariant
                from <= to <= n,
                n == v@.len(),
                forall|i: int| from <= i < to ==> v@[i] != '/',
            decreases n - to,
        {
            to = to + 1;
        }
        let ghost before = out@;
        let ghost rest = spans(v@, to + 1);
        proof {
            lemma_is_segment_end(v@, from as int, to as int);
        }
        if to > from && !(to == from + 1 && v[from] == '.') {
            out.push(Span { from, to });
            assert(spans_view(out@) =~= spans_view(before).push((from as int, to as int)));
            assert(spans_view(out@) + rest =~= spans_view(before) + spans(v@, from as int));
        } else {
            assert(spans(v@, from as int) == rest);
        }
        if to == n {
            assert(rest =~= Seq::empty());
            assert(spans_view(out@) =~= spans_view(out@) + rest);
            done = true;
        } else {
            from = to + 1;
        }
    }
    out
}

/// Whether two runs of characters are the same.
fn same_span(a: &Vec<char>, x: Span, b: &Vec<char>, y: Span) -> (r: bool)
    requires
        x.from <= x.to <= a@.len(),
        y.from <= y.to <= b@.len(),
    ensures
        r == (a@.subrange(x.from as int, x.to as int) == b@.subrange(y.from as int, y.to as int)),
{
    let p = text::string_of(a, x.from, x.to);
    let q = text::string_of(b, y.from, y.to);
    text::same(p.as_str(), q.as_str())
}

/// Whether the components of `p` begin with those of `q`.
fn begins_with(p: &Vec<char>, ps: &Vec<Span>, q: &Vec<char>, qs: &Vec<Span>) -> (r: bool)
    requires
        spans_view(ps@) == components(p@),
        spans_view(qs@) == components(q@),
    ensures
        r == lies_under(p@, q@),
{
    proof {
        components_in_order(p@);
        components_in_order(q@);
    }
    if qs.len() > ps.len() {
        assert(spans_view(ps@).len() == ps@.len());
        return false;
    }
    let mut i: usize = 0;
    while i < qs.len()
        invariant
            i <= qs.len() <= ps.len(),
            spans_view(ps@) == components(p@),
            spans_view(qs@) == components(q@),
            in_order(p@, components(p@)),
            in_order(q@, components(q@)),
            forall|j: int| 0 <= j < i ==> #[trigger] component(p@, j) == component(q@, j),
        decreases qs.len() - i,
    {
        proof {
            assert(components(p@)[i as int] == spans_view(ps@)[i as int]);
            assert(components(q@)[i as int] == spans_view(qs@)[i as int]);
        }
        if !same_span(p, ps[i], q, qs[i]) {
            assert(component(p@, i as int) != component(q@, i as int));
            return false;
        }
        i = i + 1;
    }
    true
}

/// Whether `path` is `root` or lies under it.
pub fn is_under(path: &str, root: &str) -> (r: bool)
    ensures
        r == lies_under(path@, root@),
{
    let p = text::chars_of(path);
    let q = text::chars_of(root);
    let ps = split(&p);
    let qs = split(&q);
    begins_with(&p, &ps, &q, &qs)
}

/// The last component of `path`, where it is the name of a file or directory.
pub fn file_name(path: &str) -> (r: Option<String>)
    ensures
        text::opt_text(r) == file_name_of(path@),
{
    let p = text::chars_of(path);
    let ps = split(&p);
    proof {
        components_in_order(p@);
        assert(spans_view(ps@).len() == ps@.len());
    }
    if ps.len() == 0 {
        return None;
    }
    let k: usize = ps.len() - 1;
    let last: Span = ps[k];
    assert(components(p@)[k as int] == spans_view(ps@)[k as int]);
    let name = text::string_of(&p, last.from, last.to);
    if text::same(name.as_str(), "/") || text::same(name.as_str(), ".") || text::same(
        name.as_str(),
        "..",
    ) {
        None
    } else {
        Some(name)
    }
}

/// `path` as seen from `root`; its file name alone where it does not lie under
/// `root`, so that nothing of the rest of the machine shows.
pub open spec fn relative_text(path: Seq<char>, root: Seq<char>) -> Seq<char> {
    if lies_under(path, root) {
        remainder(path, components(root).len() as int)
    } else {
        match file_name_of(path) {
            Some(name) => name,
            None => "<unknown>"@,
        }
    }
}

pub fn relativize_path(path: &str, root: &str) -> (r: String)
    ensures
        r@ == relative_text(path@, root@),
{
    let p = text::chars_of(path);
    let q = text::chars_of(root);
    let ps = split(&p);
    let qs = split(&q);
    proof {
        components_in_order(p@);
        assert(spans_view(ps@).len() == ps@.len());
        assert(spans_view(qs@).len() == qs@.len());
    }
    if begins_with(&p, &ps, &q, &qs) {
        let n: usize = qs.len();
        if n >= ps.len() {
            let empty = String::new();
            return empty;
        }
        let first: Span = ps[n];
        let last: Span = ps[ps.len() - 1];
        proof {
            assert(components(p@)[n as int] == spans_view(ps@)[n as int]);
            assert(components(p@).last() == spans_view(ps@)[ps@.len() - 1]);
        }
        return text::string_of(&p, first.from, last.to);
    }
    match file_name(path) {
        Some(name) => name,
        None => text::owned("<unknown>"),
    }
}

/// Where a file name parts into stem and extension: at its last dot, unless the
/// name has none, or only one at its front.
pub open spec fn last_dot(name: Seq<char>) -> Option<int>
    decreases name.len(),
{
    if name.len() <= 1 {
        None
    } else if name.last() == '.' {
        Some(name.len() - 1)
    } else {
        last_dot(name.drop_last())
    }
}

/// The part of a file name before its extension.
pub open spec fn stem_of(name: Seq<char>) -> Seq<char> {
    match last_dot(name) {
        Some(i) => name.take(i),
        None => name,
    }
}

/// The extension of a file name, without its dot.
pub open spec fn extension_of(name: Seq<char>) -> Option<Seq<char>> {
    match last_dot(name) {
        Some(i) => Some(name.skip(i + 1)),
        None => None,
    }
}

proof fn lemma_last_dot(name: Seq<char>, k: int)
    requires
        0 <= k <= name.len(),
        forall|i: int| k <= i < name.len() ==> name[i] != '.',
        k > 1 ==> name[k - 1] == '.',
    ensures
        last_dot(name) == if k > 1 {
            Some(k - 1)
        } else {
            None::<int>
        },
    decreases name.len(),
{
    if name.len() > 1 && k < name.len() {
        lemma_last_dot(name.drop_last(), k);
    }
}

/// The stem and the extension of a file name.
pub fn split_name(name: &str) -> (r: (String, Option<String>))
    ensures
        r.0@ == stem_of(name@),
        text::opt_text(r.1) == extension_of(name@),
{
    let v = text::chars_of(name);
    let n: usize = v.len();
    let mut k: usize = n;
    while k > 1 && v[k - 1] != '.'
        invariant
            k <= n,
            n == v@.len(),
            v@ == name@,
            forall|i: int| k <= i < n ==> v@[i] != '.',
        decreases k,
    {
        k = k - 1;
    }
    proof {
        lemma_last_dot(name@, k as int);
    }
    if k > 1 {
        assert(v@.subrange(0, k - 1) =~= name@.take(k - 1));
        assert(v@.subrange(k as int, n as int) =~= name@.skip(k as int));
        (text::string_of(&v, 0, k - 1), Some(text::string_of(&v, k, n)))
    } else {
        (text::owned(name), None)
    }
}

/// A file name parts at its last dot: what stands behind it is the extension, and what
/// stands before it the stem.
pub proof fn names_part_at_the_last_dot(
    name: &str,
    stem: Seq<char>,
    ext: Seq<char>,
    r: (String, Option<String>),
)
    requires
        call_ensures(split_name, (name,), r),
        name@ == stem + "."@ + ext,
        stem.len() > 0,
        !ext.contains('.'),
    ensures
        r.0@ == stem,
        r.1 matches Some(e) && e@ == ext,
{
    reveal_strlit(".");
    let s = name@;
    let k = stem.len() as int + 1;
    assert(s[k - 1] == '.');
    assert forall|i: int| k <= i < s.len() implies s[i] != '.' by {
        assert(ext.contains(ext[i - k]));
    }
    lemma_last_dot(s, k);
    assert(s.take(k - 1) =~= stem);
    assert(s.skip(k) =~= ext);
}

// ── What lies under a root ───────────────────────────────────────────────

/// The components of a path under a root are those of the root, then its own.
proof fn lemma_spans_under(root: Seq<char>, rest: Seq<char>, from: int)
    requires
        0 <= from <= root.len(),
    ensures
        spans(root + seq!['/'] + rest, from) == spans(root, from) + spans(
            root + seq!['/'] + rest,
            root.len() as int + 1,
        ),
    decreases root.len() - from,
{
    let s = root + seq!['/'] + rest;
    let m = root.len() as int;
    lemma_segment_end(root, from);
    let end = segment_end(root, from);
    assert(s[m] == '/');
    assert(forall|i: int| 0 <= i < m ==> s[i] == root[i]);
    lemma_is_segment_end(s, from, end);
    let own = if names_something(s, from, end) {
        seq![(from, end)]
    } else {
        Seq::empty()
    };
    let tail = spans(s, m + 1);
    assert(names_something(s, from, end) == names_something(root, from, end));
    if end < m {
        lemma_spans_under(root, rest, end + 1);
        assert(spans(s, from) =~= own + spans(s, end + 1));
        assert(spans(root, from) =~= own + spans(root, end + 1));
        assert(spans(s, from) =~= spans(root, from) + tail);
    } else {
        assert(spans(root, m + 1) =~= Seq::empty());
        assert(spans(root, from) =~= own);
        assert(spans(s, from) =~= own + tail);
    }
}

/// The last component of a path that ends with a name ends with the path.
proof fn lemma_last_span(s: Seq<char>, from: int)
    requires
        0 <= from < s.len(),
        s.last() != '/',
        s.last() != '.',
    ensures
        spans(s, from).len() > 0,
        spans(s, from).last().1 == s.len(),
    decreases s.len() - from,
{
    lemma_segment_end(s, from);
    let end = segment_end(s, from);
    if end < s.len() {
        lemma_last_span(s, end + 1);
    } else {
        assert(spans(s, end + 1) =~= Seq::empty());
        assert(s[s.len() - 1] == s.last());
        assert(names_something(s, from, end));
    }
}

/// A name that goes on where the root's last one ends is another name.
proof fn lemma_longer_name(root: Seq<char>, more: Seq<char>, from: int)
    requires
        0 <= from < root.len(),
        root.last() != '/',
        root.last() != '.',
        more.len() > 0,
        more[0] != '/',
    ensures
        ({
            let k = spans(root, from).len() - 1;
            let s = root + more;
            &&& 0 <= k < spans(s, from).len()
            &&& spans(root, from)[k].1 == root.len()
            &&& spans(s, from)[k].0 == spans(root, from)[k].0
            &&& spans(s, from)[k].1 > root.len()
        }),
    decreases root.len() - from,
{
    let s = root + more;
    let m = root.len() as int;
    assert(forall|i: int| 0 <= i < m ==> s[i] == root[i]);
    lemma_segment_end(root, from);
    lemma_segment_end(s, from);
    let end = segment_end(root, from);
    if end < m {
        lemma_is_segment_end(s, from, end);
        lemma_longer_name(root, more, end + 1);
        assert(names_something(s, from, end) == names_something(root, from, end));
    } else {
        let e = segment_end(s, from);
        assert(s[m] == more[0]);
        assert(e > m) by {
            if e <= m {
                assert(s[e] == '/');
            }
        }
        assert(root[m - 1] == root.last());
        assert(spans(root, m + 1) =~= Seq::empty());
        assert(names_something(root, from, m));
        assert(names_something(s, from, e));
        assert(spans(s, from)[0] == (from, e));
    }
}

/// What stands behind a root and a separator lies under that root, and is how the path is
/// seen from there. A path that only begins with the same characters, such as that of a
/// sibling with a longer name, does not.
pub proof fn paths_lie_under_their_root(
    root: &str,
    rest: Seq<char>,
    path: &str,
    under: bool,
    seen: String,
)
    requires
        call_ensures(is_under, (path, root), under),
        call_ensures(relativize_path, (path, root), seen),
        root@.len() > 1,
        root@[0] == '/',
        root@.last() != '/',
        root@.last() != '.',
        rest.len() > 0,
        rest.last() != '/',
        rest.last() != '.',
    ensures
        path@ == root@ + "/"@ + rest ==> under,
        path@ == root@ + "/"@ + rest && rest[0] != '/' && rest[0] != '.' ==> seen@ == rest,
        path@ == root@ + rest && rest[0] != '/' ==> !under,
{
    reveal_strlit("/");
    assert("/"@ =~= seq!['/']);
    let r = root@;
    let s = path@;
    let m = r.len() as int;
    components_in_order(r);
    components_in_order(s);
    let n = components(r).len() as int;
    lemma_last_span(r, 1);
    if s == r + "/"@ + rest {
        lemma_spans_under(r, rest, 1);
        let tail = spans(s, m + 1);
        assert(s[0] == '/');
        assert(components(s) =~= components(r) + tail);
        assert forall|i: int| 0 <= i < n implies #[trigger] component(s, i) == component(r, i) by {
            assert(components(s)[i] == components(r)[i]);
            assert(component(s, i) =~= component(r, i));
        }
        assert(lies_under(s, r));
        assert(s.last() == rest.last());
        lemma_last_span(s, m + 1);
        if rest[0] != '/' && rest[0] != '.' {
            lemma_segment_end(s, m + 1);
            assert(s[m + 1] == rest[0]);
            let end = segment_end(s, m + 1);
            assert(end > m + 1);
            assert(names_something(s, m + 1, end));
            assert(tail[0] == (m + 1, end));
            assert(components(s)[n] == tail[0]);
            assert(components(s).last() == tail.last());
            assert(s.subrange(m + 1, s.len() as int) =~= rest);
        }
    }
    if s == r + rest && rest[0] != '/' {
        lemma_longer_name(r, rest, 1);
        let k = n - 1;
        assert(s[0] == '/');
        assert(components(r)[k] == spans(r, 1)[k - 1]);
        assert(components(s)[k] == spans(s, 1)[k - 1]);
        assert(component(s, k).len() > component(r, k).len());
        assert(!lies_under(s, r));
    }
}

} // verus!
