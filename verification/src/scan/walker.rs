//! Which files of the library are music.

use vstd::prelude::*;

use crate::path::{extension_of, split_name};
use crate::text::{self, lowered, texts};

verus! {

/// What a walk through the library found.
#[derive(Debug)]
pub struct WalkResult {
    pub audio_files: Vec<String>,
    pub skipped: Vec<SkippedFile>,
    /// How many cover images, logs, playlists and the like were seen. They are
    /// counted only, so that what is listed as skipped is worth a look.
    pub companion_files_seen: usize,
}

/// A file that is left out.
#[derive(Debug)]
pub struct SkippedFile {
    pub path: String,
    pub reason: SkipReason,
}

/// Why a file is left out.
#[derive(Debug, Clone, Copy, PartialEq, Eq, Structural)]
pub enum SkipReason {
    UnsupportedExtension,
    ZeroSize,
    /// With its links resolved, the file lies outside the library.
    OutsideLibraryRoot,
}

impl SkipReason {
    pub open spec fn name(self) -> Seq<char> {
        match self {
            SkipReason::UnsupportedExtension => "unsupported_extension"@,
            SkipReason::ZeroSize => "zero_size"@,
            SkipReason::OutsideLibraryRoot => "outside_library_root"@,
        }
    }

    pub fn as_str(&self) -> (r: &'static str)
        ensures
            r@ == self.name(),
    {
        match self {
            SkipReason::UnsupportedExtension => "unsupported_extension",
            SkipReason::ZeroSize => "zero_size",
            SkipReason::OutsideLibraryRoot => "outside_library_root",
        }
    }
}

/// A directory entry that a walk came by.
#[derive(Debug)]
pub struct WalkEntry {
    pub path: String,
    pub file_name: String,
    pub is_file: bool,
    /// Whether the file is known to be empty.
    pub zero_size: bool,
    /// Whether the file, all links resolved, is known to lie under the root.
    pub inside_root: bool,
}

/// What is to be done with a file.
#[derive(Debug, Clone, Copy, PartialEq, Eq, Structural)]
pub enum FileClass {
    Audio,
    Companion,
    Skip(SkipReason),
    /// Not a file.
    Ignore,
}

/// The extensions of what usually lies beside music: cover images, what a ripper
/// leaves, playlists and checksums.
pub open spec fn companion_extensions() -> Seq<Seq<char>> {
    seq![
        "jpg"@,
        "jpeg"@,
        "png"@,
        "gif"@,
        "bmp"@,
        "webp"@,
        "log"@,
        "cue"@,
        "nfo"@,
        "txt"@,
        "pdf"@,
        "m3u"@,
        "m3u8"@,
        "pls"@,
        "md5"@,
        "sfv"@,
        "accurip"@,
    ]
}

/// Whether an extension is one of a list, whatever the case of its letters.
pub open spec fn listed(ext: Seq<char>, list: Seq<Seq<char>>) -> bool {
    exists|i: int| 0 <= i < list.len() && lowered(#[trigger] list[i]) == lowered(ext)
}

/// Whether `ext` is one of `list`, whatever the case of its letters.
fn is_listed(ext: &str, list: &Vec<String>) -> (r: bool)
    ensures
        r == listed(ext@, texts(list@)),
{
    let mut i: usize = 0;
    while i < list.len()
        invariant
            i <= list.len(),
            forall|j: int|
                0 <= j < i ==> lowered(#[trigger] texts(list@)[j]) != lowered(ext@),
        decreases list.len() - i,
    {
        if text::same_ignoring_case(list[i].as_str(), ext) {
            assert(lowered(texts(list@)[i as int]) == lowered(ext@));
            return true;
        }
        i = i + 1;
    }
    false
}

fn companion_list() -> (r: Vec<String>)
    ensures
        texts(r@) == companion_extensions(),
{
    let r = vec![
        text::owned("jpg"),
        text::owned("jpeg"),
        text::owned("png"),
        text::owned("gif"),
        text::owned("bmp"),
        text::owned("webp"),
        text::owned("log"),
        text::owned("cue"),
        text::owned("nfo"),
        text::owned("txt"),
        text::owned("pdf"),
        text::owned("m3u"),
        text::owned("m3u8"),
        text::owned("pls"),
        text::owned("md5"),
        text::owned("sfv"),
        text::owned("accurip"),
    ];
    assert(texts(r@) =~= companion_extensions());
    r
}

pub fn is_companion_extension(ext: &str) -> (r: bool)
    ensures
        r == listed(ext@, companion_extensions()),
{
    is_listed(ext, &companion_list())
}

/// Whether a walk looks at an entry at all: the root itself always, and below it
/// whatever does not begin with a dot.
pub fn keep_entry(depth: usize, file_name: &str) -> (r: bool)
    ensures
        r == (depth == 0 || !(file_name@.len() > 0 && file_name@[0] == '.')),
{
    if depth == 0 {
        return true;
    }
    let v = text::chars_of(file_name);
    !(v.len() > 0 && v[0] == '.')
}

/// Whether a file has one of the extensions.
pub open spec fn has_extension(file_name: Seq<char>, extensions: Seq<Seq<char>>) -> bool {
    match extension_of(file_name) {
        Some(e) => listed(e, extensions),
        None => false,
    }
}

/// What is to be done with an entry, given the extensions of music files.
pub open spec fn entry_class(entry: WalkEntry, extensions: Seq<Seq<char>>) -> FileClass {
    if !entry.is_file {
        FileClass::Ignore
    } else if !has_extension(entry.file_name@, extensions) {
        if has_extension(entry.file_name@, companion_extensions()) {
            FileClass::Companion
        } else {
            FileClass::Skip(SkipReason::UnsupportedExtension)
        }
    } else if entry.zero_size {
        FileClass::Skip(SkipReason::ZeroSize)
    } else if entry.inside_root {
        FileClass::Audio
    } else {
        FileClass::Skip(SkipReason::OutsideLibraryRoot)
    }
}

pub fn classify(entry: &WalkEntry, extensions: &Vec<String>) -> (r: FileClass)
    ensures
        r == entry_class(*entry, texts(extensions@)),
{
    if !entry.is_file {
        return FileClass::Ignore;
    }
    let (_, ext) = split_name(entry.file_name.as_str());
    let (wanted, companion) = match &ext {
        Some(e) => (is_listed(e.as_str(), extensions), is_companion_extension(e.as_str())),
        None => (false, false),
    };
    if !wanted {
        if companion {
            FileClass::Companion
        } else {
            FileClass::Skip(SkipReason::UnsupportedExtension)
        }
    } else if entry.zero_size {
        FileClass::Skip(SkipReason::ZeroSize)
    } else if entry.inside_root {
        FileClass::Audio
    } else {
        FileClass::Skip(SkipReason::OutsideLibraryRoot)
    }
}

/// A left-out file as text.
pub struct SkippedFileView {
    pub path: Seq<char>,
    pub reason: SkipReason,
}

impl View for SkippedFile {
    type V = SkippedFileView;

    open spec fn view(&self) -> SkippedFileView {
        SkippedFileView { path: self.path@, reason: self.reason }
    }
}

pub open spec fn skipped_files(v: Seq<SkippedFile>) -> Seq<SkippedFileView> {
    v.map_values(|s: SkippedFile| s@)
}

/// The paths of the music files among the entries, in order.
pub open spec fn audio_of(entries: Seq<WalkEntry>, extensions: Seq<Seq<char>>) -> Seq<Seq<char>>
    decreases entries.len(),
{
    if entries.len() == 0 {
        Seq::empty()
    } else {
        let before = audio_of(entries.drop_last(), extensions);
        if entry_class(entries.last(), extensions) is Audio {
            before.push(entries.last().path@)
        } else {
            before
        }
    }
}

/// The files left out among the entries, in order and with the reason.
pub open spec fn skipped_of(entries: Seq<WalkEntry>, extensions: Seq<Seq<char>>) -> Seq<
    SkippedFileView,
>
    decreases entries.len(),
{
    if entries.len() == 0 {
        Seq::empty()
    } else {
        let before = skipped_of(entries.drop_last(), extensions);
        match entry_class(entries.last(), extensions) {
            FileClass::Skip(reason) => before.push(
                SkippedFileView { path: entries.last().path@, reason },
            ),
            _ => before,
        }
    }
}

/// How many of the entries only accompany the music.
pub open spec fn companions_of(entries: Seq<WalkEntry>, extensions: Seq<Seq<char>>) -> nat
    decreases entries.len(),
{
    if entries.len() == 0 {
        0
    } else {
        let before = companions_of(entries.drop_last(), extensions);
        if entry_class(entries.last(), extensions) is Companion {
            before + 1
        } else {
            before
        }
    }
}

/// How many of the entries are files.
pub open spec fn files_of(entries: Seq<WalkEntry>) -> nat
    decreases entries.len(),
{
    if entries.len() == 0 {
        0
    } else if entries.last().is_file {
        files_of(entries.drop_last()) + 1
    } else {
        files_of(entries.drop_last())
    }
}

/// Sort out the entries of a walk.
pub fn walk(entries: &Vec<WalkEntry>, extensions: &Vec<String>) -> (r: WalkResult)
    ensures
        texts(r.audio_files@) == audio_of(entries@, texts(extensions@)),
        skipped_files(r.skipped@) == skipped_of(entries@, texts(extensions@)),
        r.companion_files_seen == companions_of(entries@, texts(extensions@)),
{
    let ghost exts = texts(extensions@);
    let mut audio_files: Vec<String> = Vec::new();
    let mut skipped: Vec<SkippedFile> = Vec::new();
    let mut companion_files_seen: usize = 0;
    let mut i: usize = 0;
    assert(texts(audio_files@) =~= Seq::empty());
    assert(skipped_files(skipped@) =~= Seq::empty());
    while i < entries.len()
        invariant
            i <= entries.len(),
            exts == texts(extensions@),
            texts(audio_files@) == audio_of(entries@.take(i as int), exts),
            skipped_files(skipped@) == skipped_of(entries@.take(i as int), exts),
            companion_files_seen == companions_of(entries@.take(i as int), exts),
            companion_files_seen <= i,
        decreases entries.len() - i,
    {
        let ghost audio_before = audio_files@;
        let ghost skipped_before = skipped@;
        let entry = &entries[i];
        match classify(entry, extensions) {
            FileClass::Audio => {
                audio_files.push(text::owned(entry.path.as_str()));
                assert(texts(audio_files@) =~= texts(audio_before).push(entry.path@));
            },
            FileClass::Companion => {
                companion_files_seen = companion_files_seen + 1;
            },
            FileClass::Skip(reason) => {
                skipped.push(SkippedFile { path: text::owned(entry.path.as_str()), reason });
                assert(skipped_files(skipped@) =~= skipped_files(skipped_before).push(
                    SkippedFileView { path: entry.path@, reason },
                ));
            },
            FileClass::Ignore => {},
        }
        i = i + 1;
        assert(entries@.take(i as int).drop_last() =~= entries@.take(i - 1));
    }
    assert(entries@.take(i as int) =~= entries@);
    WalkResult { audio_files, skipped, companion_files_seen }
}

/// Every file that a walk came by is music, left out for a reason, or a companion.
pub proof fn walk_accounts_for_every_file(entries: Seq<WalkEntry>, extensions: Seq<Seq<char>>)
    ensures
        audio_of(entries, extensions).len() + skipped_of(entries, extensions).len()
            + companions_of(entries, extensions) == files_of(entries),
    decreases entries.len(),
{
    if entries.len() > 0 {
        walk_accounts_for_every_file(entries.drop_last(), extensions);
    }
}

/// Nothing that lies outside the library is taken for music.
pub proof fn music_lies_inside_library(entries: Seq<WalkEntry>, extensions: Seq<Seq<char>>)
    ensures
        forall|p: Seq<char>|
            audio_of(entries, extensions).contains(p) ==> exists|i: int|
                0 <= i < entries.len() && (#[trigger] entries[i]).path@ == p && entries[i].is_file
                    && entries[i].inside_root && !entries[i].zero_size,
    decreases entries.len(),
{
    if entries.len() > 0 {
        let front = entries.drop_last();
        music_lies_inside_library(front, extensions);
        assert forall|p: Seq<char>| audio_of(entries, extensions).contains(p) implies exists|i: int|
            0 <= i < entries.len() && (#[trigger] entries[i]).path@ == p && entries[i].is_file
                && entries[i].inside_root && !entries[i].zero_size by {
            if audio_of(front, extensions).contains(p) {
                let i = choose|i: int|
                    0 <= i < front.len() && (#[trigger] front[i]).path@ == p && front[i].is_file
                        && front[i].inside_root && !front[i].zero_size;
                assert(entries[i] == front[i]);
            } else {
                let all = audio_of(entries, extensions);
                let k = choose|k: int| 0 <= k < all.len() && all[k] == p;
                let before = audio_of(front, extensions);
                if k < before.len() {
                    assert(before[k] == p);
                }
                assert(entries[entries.len() - 1].path@ == p);
            }
        }
    }
}

/// Whether an extension is that of a picture, a ripper's log, a playlist or a checksum,
/// whatever the case of its letters.
pub open spec fn lies_beside_music(ext: Seq<char>) -> bool {
    let e = lowered(ext);
    ||| e == "jpg"@ || e == "jpeg"@ || e == "png"@ || e == "gif"@ || e == "bmp"@ || e == "webp"@
    ||| e == "log"@ || e == "cue"@ || e == "nfo"@ || e == "txt"@ || e == "pdf"@
    ||| e == "m3u"@ || e == "m3u8"@ || e == "pls"@
    ||| e == "md5"@ || e == "sfv"@ || e == "accurip"@
}

proof fn lemma_companions(ext: Seq<char>)
    ensures
        listed(ext, companion_extensions()) == lies_beside_music(ext),
{
    let all = companion_extensions();
    reveal_strlit("jpg");
    reveal_strlit("jpeg");
    reveal_strlit("png");
    reveal_strlit("gif");
    reveal_strlit("bmp");
    reveal_strlit("webp");
    reveal_strlit("log");
    reveal_strlit("cue");
    reveal_strlit("nfo");
    reveal_strlit("txt");
    reveal_strlit("pdf");
    reveal_strlit("m3u");
    reveal_strlit("m3u8");
    reveal_strlit("pls");
    reveal_strlit("md5");
    reveal_strlit("sfv");
    reveal_strlit("accurip");
    assert(all.len() == 17);
    assert(lowered(all[0]) =~= "jpg"@);
    assert(lowered(all[1]) =~= "jpeg"@);
    assert(lowered(all[2]) =~= "png"@);
    assert(lowered(all[3]) =~= "gif"@);
    assert(lowered(all[4]) =~= "bmp"@);
    assert(lowered(all[5]) =~= "webp"@);
    assert(lowered(all[6]) =~= "log"@);
    assert(lowered(all[7]) =~= "cue"@);
    assert(lowered(all[8]) =~= "nfo"@);
    assert(lowered(all[9]) =~= "txt"@);
    assert(lowered(all[10]) =~= "pdf"@);
    assert(lowered(all[11]) =~= "m3u"@);
    assert(lowered(all[12]) =~= "m3u8"@);
    assert(lowered(all[13]) =~= "pls"@);
    assert(lowered(all[14]) =~= "md5"@);
    assert(lowered(all[15]) =~= "sfv"@);
    assert(lowered(all[16]) =~= "accurip"@);
}

/// A file with an extension of music is music, unless it is empty or lies outside the
/// library. Any other file is a companion where its extension says so, and is left out
/// where not; what is left out is told why.
pub proof fn files_are_told_by_their_extensions(
    entry: &WalkEntry,
    extensions: &Vec<String>,
    r: FileClass,
)
    requires
        call_ensures(classify, (entry, extensions), r),
    ensures
        ({
            let ext = extension_of(entry.file_name@);
            let music = ext matches Some(e) && exists|i: int|
                0 <= i < extensions@.len() && lowered(#[trigger] texts(extensions@)[i]) == lowered(e);
            let beside = ext matches Some(e) && lies_beside_music(e);
            &&& !entry.is_file <==> r is Ignore
            &&& r is Audio <==> entry.is_file && music && !entry.zero_size && entry.inside_root
            &&& r is Companion <==> entry.is_file && !music && beside
            &&& r == FileClass::Skip(SkipReason::ZeroSize) <==> entry.is_file && music
                && entry.zero_size
            &&& r == FileClass::Skip(SkipReason::OutsideLibraryRoot) <==> entry.is_file && music
                && !entry.zero_size && !entry.inside_root
            &&& r == FileClass::Skip(SkipReason::UnsupportedExtension) <==> entry.is_file && !music
                && !beside
        }),
        SkipReason::ZeroSize.name() == "zero_size"@,
        SkipReason::OutsideLibraryRoot.name() == "outside_library_root"@,
        SkipReason::UnsupportedExtension.name() == "unsupported_extension"@,
{
    if let Some(e) = extension_of(entry.file_name@) {
        lemma_companions(e);
    }
}

} // verus!
