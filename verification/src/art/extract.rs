//! Which picture shows an album.
//!
//! A picture inside a track comes first: the front cover, then one of no particular
//! kind, then the first. Without one, an image file of the album's folder: `cover`,
//! then `folder`, then `front`, then any other in the order of their names. Case
//! does not matter.

use vstd::prelude::*;

use crate::path::{extension_of, split_name, stem_of};
use crate::text::{self, comes_before, lowered, texts};

verus! {

/// What a picture inside a track shows.
#[derive(Debug, Clone, Copy, PartialEq, Eq, Structural)]
pub enum PictureKind {
    CoverFront,
    /// No kind in particular.
    Other,
    /// A kind that is not preferred.
    Further,
}

/// The format of a picture inside a track.
#[derive(Debug, Clone, Copy, PartialEq, Eq, Structural)]
pub enum PictureFormat {
    Jpeg,
    Png,
    /// One that players do not show.
    Further,
    /// Not stated.
    Unstated,
}

/// A picture inside a track.
#[derive(Debug)]
pub struct Picture {
    pub kind: PictureKind,
    pub format: PictureFormat,
    pub data: Vec<u8>,
}

/// A picture's bytes and its type.
pub type ExtractedArt = (Vec<u8>, &'static str);

/// The index of the first picture of a kind, or their number.
pub open spec fn first_of_kind(pics: Seq<Picture>, kind: PictureKind) -> int
    decreases pics.len(),
{
    if pics.len() == 0 || pics[0].kind == kind {
        0
    } else {
        1 + first_of_kind(pics.skip(1), kind)
    }
}

/// The index of the picture that shows the album.
pub open spec fn preferred(pics: Seq<Picture>) -> Option<int> {
    if pics.len() == 0 {
        None
    } else if first_of_kind(pics, PictureKind::CoverFront) < pics.len() {
        Some(first_of_kind(pics, PictureKind::CoverFront))
    } else if first_of_kind(pics, PictureKind::Other) < pics.len() {
        Some(first_of_kind(pics, PictureKind::Other))
    } else {
        Some(0)
    }
}

/// The type of a format that players show.
pub open spec fn shown_as(format: PictureFormat) -> Option<Seq<char>> {
    match format {
        PictureFormat::Jpeg => Some("image/jpeg"@),
        PictureFormat::Png => Some("image/png"@),
        PictureFormat::Further => None,
        PictureFormat::Unstated => None,
    }
}

/// The album's picture among those inside a track. Where the preferred one has a
/// format that players do not show, there is none.
pub open spec fn embedded_art(pics: Seq<Picture>) -> Option<(Seq<u8>, Seq<char>)> {
    match preferred(pics) {
        None => None,
        Some(i) => match shown_as(pics[i].format) {
            None => None,
            Some(mime) => Some((pics[i].data@, mime)),
        },
    }
}

pub open spec fn art_view(art: Option<ExtractedArt>) -> Option<(Seq<u8>, Seq<char>)> {
    match art {
        Some(a) => Some((a.0@, a.1@)),
        None => None,
    }
}

fn find_kind(pics: &Vec<Picture>, kind: PictureKind) -> (r: usize)
    ensures
        r == first_of_kind(pics@, kind),
        r <= pics@.len(),
{
    let mut i: usize = 0;
    assert(pics@.skip(0) =~= pics@);
    while i < pics.len() && pics[i].kind != kind
        invariant
            i <= pics@.len(),
            first_of_kind(pics@, kind) == i + first_of_kind(pics@.skip(i as int), kind),
        decreases pics@.len() - i,
    {
        assert(pics@.skip(i as int).skip(1) =~= pics@.skip(i + 1));
        i = i + 1;
    }
    i
}

pub fn copy_bytes(v: &Vec<u8>) -> (r: Vec<u8>)
    ensures
        r@ == v@,
{
    let mut out: Vec<u8> = Vec::new();
    let mut i: usize = 0;
    while i < v.len()
        invariant
            i <= v@.len(),
            out@ =~= v@.take(i as int),
        decreases v@.len() - i,
    {
        out.push(v[i]);
        i = i + 1;
    }
    out
}

/// The album's picture among those inside a track.
pub fn extract_embedded(pics: &Vec<Picture>) -> (r: Option<ExtractedArt>)
    ensures
        art_view(r) == embedded_art(pics@),
{
    if pics.len() == 0 {
        return None;
    }
    let front: usize = find_kind(pics, PictureKind::CoverFront);
    let other: usize = find_kind(pics, PictureKind::Other);
    let chosen: usize = if front < pics.len() {
        front
    } else if other < pics.len() {
        other
    } else {
        0
    };
    let mime: &'static str = match pics[chosen].format {
        PictureFormat::Jpeg => "image/jpeg",
        PictureFormat::Png => "image/png",
        _ => return None,
    };
    Some((copy_bytes(&pics[chosen].data), mime))
}

// ── Image files ──────────────────────────────────────────────────────────

/// The extension of an image file, in lower case.
pub open spec fn image_extension(name: Seq<char>) -> Option<Seq<char>> {
    match extension_of(name) {
        None => None,
        Some(e) => {
            let ext = lowered(e);
            if ext == "jpg"@ || ext == "jpeg"@ || ext == "png"@ {
                Some(ext)
            } else {
                None
            }
        },
    }
}

pub open spec fn is_image(name: Seq<char>) -> bool {
    image_extension(name) is Some
}

/// How far back in the queue an image file stands.
pub open spec fn rank(name: Seq<char>) -> int {
    let stem = lowered(stem_of(name));
    let png = image_extension(name) == Some("png"@);
    if stem == "cover"@ {
        if png { 2 } else { 1 }
    } else if stem == "folder"@ {
        if png { 4 } else { 3 }
    } else if stem == "front"@ {
        if png { 6 } else { 5 }
    } else {
        7
    }
}

/// Whether image file `a` is preferred to `b`.
pub open spec fn ranks_before(a: Seq<char>, b: Seq<char>) -> bool {
    rank(a) < rank(b) || rank(a) == rank(b) && comes_before(
        lowered(stem_of(a)),
        lowered(stem_of(b)),
    )
}

/// Whether file `i` is the image that shows the album: none is preferred to it, and
/// it is the first such.
pub open spec fn is_choice(names: Seq<Seq<char>>, i: int) -> bool {
    &&& 0 <= i < names.len()
    &&& is_image(names[i])
    &&& forall|j: int|
        0 <= j < names.len() && #[trigger] is_image(names[j]) ==> !ranks_before(names[j], names[i])
            && (j < i ==> ranks_before(names[i], names[j]))
}

/// The type of an image file.
pub open spec fn file_mime(name: Seq<char>) -> Seq<char> {
    if image_extension(name) == Some("png"@) {
        "image/png"@
    } else {
        "image/jpeg"@
    }
}

fn image_parts(name: &str) -> (r: Option<(String, bool)>)
    ensures
        r is Some == is_image(name@),
        r matches Some(p) ==> p.0@ == lowered(stem_of(name@)) && p.1 == (image_extension(name@)
            == Some("png"@)),
{
    let (stem, ext) = split_name(name);
    match ext {
        None => None,
        Some(e) => {
            let ext = text::to_lower(e.as_str());
            let png = text::same(ext.as_str(), "png");
            if png || text::same(ext.as_str(), "jpg") || text::same(ext.as_str(), "jpeg") {
                Some((text::to_lower(stem.as_str()), png))
            } else {
                None
            }
        },
    }
}

fn priority(stem: &str, png: bool) -> (r: u8)
    ensures
        forall|name: Seq<char>|
            lowered(stem_of(name)) == stem@ && png == (image_extension(name) == Some("png"@))
                ==> #[trigger] rank(name) == r,
{
    if text::same(stem, "cover") {
        if png { 2 } else { 1 }
    } else if text::same(stem, "folder") {
        if png { 4 } else { 3 }
    } else if text::same(stem, "front") {
        if png { 6 } else { 5 }
    } else {
        7
    }
}

fn preferred_to(a: &(String, bool), b: &(String, bool)) -> (r: bool)
    ensures
        forall|x: Seq<char>, y: Seq<char>|
            lowered(stem_of(x)) == a.0@ && a.1 == (image_extension(x) == Some("png"@)) && lowered(
                stem_of(y),
            ) == b.0@ && b.1 == (image_extension(y) == Some("png"@)) ==> #[trigger] ranks_before(
                x,
                y,
            ) == r,
{
    let pa: u8 = priority(a.0.as_str(), a.1);
    let pb: u8 = priority(b.0.as_str(), b.1);
    pa < pb || (pa == pb && text::sorts_before(a.0.as_str(), b.0.as_str()))
}

proof fn lemma_ranks_before(a: Seq<char>, b: Seq<char>, c: Seq<char>)
    requires
        ranks_before(a, b),
        !ranks_before(c, b),
    ensures
        ranks_before(a, c),
        !ranks_before(c, a),
{
    if rank(a) == rank(b) && rank(b) == rank(c) {
        text::lemma_comes_before(
            lowered(stem_of(a)),
            lowered(stem_of(b)),
            lowered(stem_of(c)),
        );
        lemma_not_before_each_other(lowered(stem_of(a)), lowered(stem_of(c)));
    }
}

proof fn lemma_not_before_each_other(a: Seq<char>, b: Seq<char>)
    ensures
        !(comes_before(a, b) && comes_before(b, a)),
    decreases a.len(),
{
    if a.len() > 0 && b.len() > 0 {
        lemma_not_before_each_other(a.skip(1), b.skip(1));
    }
}

/// Which of the files of a folder, given by their names, shows the album, and its
/// type.
pub fn extract_folder(names: &Vec<String>) -> (r: Option<(usize, &'static str)>)
    ensures
        r is Some == (exists|i: int|
            0 <= i < names@.len() && #[trigger] is_image(texts(names@)[i])),
        r matches Some(c) ==> is_choice(texts(names@), c.0 as int) && c.1@ == file_mime(
            texts(names@)[c.0 as int],
        ),
{
    let ghost all = texts(names@);
    let mut chosen: Option<(usize, (String, bool))> = None;
    let mut i: usize = 0;
    while i < names.len()
        invariant
            i <= names@.len(),
            all == texts(names@),
            all.len() == names@.len(),
            chosen is None ==> forall|j: int| 0 <= j < i ==> !#[trigger] is_image(all[j]),
            chosen matches Some(c) ==> {
                &&& c.0 < i
                &&& is_image(all[c.0 as int])
                &&& is_choice(all.take(i as int), c.0 as int)
                &&& c.1.0@ == lowered(stem_of(all[c.0 as int]))
                &&& c.1.1 == (image_extension(all[c.0 as int]) == Some("png"@))
            },
        decreases names@.len() - i,
    {
        let ghost upto = all.take(i + 1);
        let ghost held: Option<int> = if chosen is Some {
            Some(chosen.unwrap().0 as int)
        } else {
            None
        };
        assert(all[i as int] == names@[i as int]@);
        assert forall|j: int| 0 <= j < i implies #[trigger] upto[j] == all.take(i as int)[j] by {}
        match image_parts(names[i].as_str()) {
            None => {
                proof {
                    if let Some(c) = held {
                        assert(is_choice(upto, c));
                    }
                }
            },
            Some(parts) => {
                let better = match &chosen {
                    None => true,
                    Some(c) => preferred_to(&parts, &c.1),
                };
                proof {
                    let stem = lowered(stem_of(all[i as int]));
                    lemma_not_before_each_other(stem, stem);
                }
                if better {
                    proof {
                        assert forall|j: int|
                            0 <= j < upto.len() && #[trigger] is_image(
                                upto[j],
                            ) implies !ranks_before(upto[j], upto[i as int]) && (j < i
                            ==> ranks_before(upto[i as int], upto[j])) by {
                            if let Some(c) = held {
                                if j < i {
                                    assert(is_image(all.take(i as int)[j]));
                                    lemma_ranks_before(
                                        upto[i as int],
                                        upto[c],
                                        upto[j],
                                    );
                                }
                            }
                        }
                        assert(is_choice(upto, i as int));
                    }
                    chosen = Some((i, parts));
                } else {
                    proof {
                        if let Some(c) = held {
                            assert(is_choice(upto, c));
                        }
                    }
                }
            },
        }
        i = i + 1;
    }
    assert(all.take(i as int) =~= all);
    match chosen {
        None => None,
        Some(c) => Some((c.0, if c.1.1 { "image/png" } else { "image/jpeg" })),
    }
}

/// There is never more than one choice.
pub proof fn choice_is_unique(names: Seq<Seq<char>>, i: int, j: int)
    requires
        is_choice(names, i),
        is_choice(names, j),
    ensures
        i == j,
{
    assert(is_image(names[i]));
    assert(is_image(names[j]));
}

proof fn lemma_first_of_kind(pics: Seq<Picture>, kind: PictureKind)
    ensures
        ({
            let i = first_of_kind(pics, kind);
            &&& 0 <= i <= pics.len()
            &&& i < pics.len() ==> pics[i].kind == kind
            &&& forall|j: int| 0 <= j < i ==> (#[trigger] pics[j]).kind != kind
        }),
    decreases pics.len(),
{
    if pics.len() > 0 && pics[0].kind != kind {
        lemma_first_of_kind(pics.skip(1), kind);
        let i = first_of_kind(pics, kind);
        assert forall|j: int| 0 <= j < i implies (#[trigger] pics[j]).kind != kind by {
            if j > 0 {
                assert(pics[j] == pics.skip(1)[j - 1]);
            }
        }
    }
}

/// Of the pictures inside a track the first front cover is shown; without one the first of
/// no particular kind; without that the first. Its bytes are shown as they are, under the
/// type of their format, and nothing where players do not show that format.
pub proof fn front_cover_is_shown_first(pics: &Vec<Picture>, r: Option<ExtractedArt>, i: int)
    requires
        call_ensures(extract_embedded, (pics,), r),
        0 <= i < pics@.len(),
        match pics@[i].kind {
            PictureKind::CoverFront => forall|j: int|
                0 <= j < i ==> !((#[trigger] pics@[j]).kind is CoverFront),
            PictureKind::Other => (forall|j: int|
                0 <= j < pics@.len() ==> !((#[trigger] pics@[j]).kind is CoverFront)) && (forall|
                j: int,
            |
                0 <= j < i ==> !((#[trigger] pics@[j]).kind is Other)),
            PictureKind::Further => i == 0 && forall|j: int|
                0 <= j < pics@.len() ==> (#[trigger] pics@[j]).kind is Further,
        },
    ensures
        pics@[i].format is Jpeg ==> (r matches Some(art) && art.0@ == pics@[i].data@ && art.1@
            == "image/jpeg"@),
        pics@[i].format is Png ==> (r matches Some(art) && art.0@ == pics@[i].data@ && art.1@
            == "image/png"@),
        !(pics@[i].format is Jpeg) && !(pics@[i].format is Png) ==> r is None,
{
    lemma_first_of_kind(pics@, PictureKind::CoverFront);
    lemma_first_of_kind(pics@, PictureKind::Other);
    let f = first_of_kind(pics@, PictureKind::CoverFront);
    let o = first_of_kind(pics@, PictureKind::Other);
    assert(f < pics@.len() ==> pics@[f].kind is CoverFront);
    assert(o < pics@.len() ==> pics@[o].kind is Other);
    assert(preferred(pics@) == Some(i));
}

/// An image file called `cover` is shown before one called `folder`, that before one called
/// `front`, and each of these before any other, whatever the case of their letters; of two
/// of one such name the JPEG is shown first.
pub proof fn covers_are_shown_first(
    names: &Vec<String>,
    chosen: (usize, &'static str),
    j: int,
)
    requires
        call_ensures(extract_folder, (names,), Some(chosen)),
        0 <= j < names@.len(),
        is_image(names@[j]@),
    ensures
        ({
            let c = names@[chosen.0 as int]@;
            let stem = lowered(stem_of(c));
            let other = lowered(stem_of(names@[j]@));
            let png = image_extension(c) == Some("png"@);
            &&& chosen.0 < names@.len()
            &&& is_image(c)
            &&& other == "cover"@ ==> stem == "cover"@
            &&& other == "folder"@ ==> stem == "cover"@ || stem == "folder"@
            &&& other == "front"@ ==> stem == "cover"@ || stem == "folder"@ || stem == "front"@
            &&& other == stem && (stem == "cover"@ || stem == "folder"@ || stem == "front"@)
                && image_extension(names@[j]@) != Some("png"@) ==> !png
            &&& chosen.1@ == if png {
                "image/png"@
            } else {
                "image/jpeg"@
            }
        }),
{
    let all = texts(names@);
    assert(all[j] == names@[j]@);
    assert(0 <= j < names@.len() && is_image(texts(names@)[j]));
    let c = chosen.0 as int;
    assert(is_choice(all, c));
    assert(all[c] == names@[c]@);
    assert(!ranks_before(all[j], all[c]));
}

} // verus!
