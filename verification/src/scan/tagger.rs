//! What is kept of a track's tags.

use vstd::prelude::*;

use crate::text::{self, first_index, lowered, opt_text, parsed_number, trimmed};

verus! {

/// A track's tags and audio properties.
#[derive(Debug)]
pub struct TrackTags {
    pub title: Option<String>,
    pub artist: Option<String>,
    pub album_artist: Option<String>,
    pub album: Option<String>,
    pub genre: Option<String>,
    pub compilation: bool,
    pub track_num: Option<u32>,
    pub disc_num: Option<u32>,
    pub composer: Option<String>,
    pub conductor: Option<String>,
    /// Orchestra or ensemble.
    pub performer: Option<String>,
    pub year: Option<i32>,
    /// ReplayGain, as decimal numerals.
    pub rg_track_gain: Option<String>,
    pub rg_track_peak: Option<String>,
    pub rg_album_gain: Option<String>,
    pub rg_album_peak: Option<String>,
    /// How names are sorted.
    pub artist_sort: Option<String>,
    pub album_artist_sort: Option<String>,
    pub album_sort: Option<String>,
    pub title_sort: Option<String>,
    pub composer_sort: Option<String>,
    /// The year of the first release.
    pub original_year: Option<i32>,
    /// MusicBrainz ids.
    pub mb_recording_id: Option<String>,
    pub mb_release_id: Option<String>,
    pub mb_release_group_id: Option<String>,
    pub mb_artist_id: Option<String>,
    pub mb_release_artist_id: Option<String>,
    pub duration_ms: Option<u64>,
    pub sample_rate: Option<u32>,
    pub bit_depth: Option<u8>,
    pub channels: Option<u8>,
    pub bitrate: Option<u32>,
    pub codec: String,
    pub mime_type: String,
    pub file_size: u64,
}

/// What kind of file a track is in.
#[derive(Debug, Clone, Copy, PartialEq, Eq, Structural)]
pub enum FileType {
    Flac,
    Mpeg,
    Wav,
    Aiff,
    Mp4,
    Other,
}

/// What an MP4 container holds, as far as it can be read.
#[derive(Debug, Clone, Copy, PartialEq, Eq, Structural)]
pub enum Mp4Codec {
    Alac,
    Aac,
    /// Something else, or the container could not be read.
    Unreadable,
}

/// The tag fields that are read, each as it is written.
#[derive(Debug)]
pub struct TagFields {
    pub title: Option<String>,
    pub artist: Option<String>,
    pub album_artist: Option<String>,
    pub album: Option<String>,
    pub genre: Option<String>,
    pub compilation: Option<String>,
    pub track_number: Option<String>,
    pub disc_number: Option<String>,
    pub composer: Option<String>,
    pub conductor: Option<String>,
    pub performer: Option<String>,
    pub year: Option<String>,
    pub rg_track_gain: Option<String>,
    pub rg_track_peak: Option<String>,
    pub rg_album_gain: Option<String>,
    pub rg_album_peak: Option<String>,
    pub artist_sort: Option<String>,
    pub album_artist_sort: Option<String>,
    pub album_sort: Option<String>,
    pub title_sort: Option<String>,
    pub composer_sort: Option<String>,
    pub original_year: Option<String>,
    pub mb_recording_id: Option<String>,
    pub mb_release_id: Option<String>,
    pub mb_release_group_id: Option<String>,
    pub mb_artist_id: Option<String>,
    pub mb_release_artist_id: Option<String>,
}

/// What the audio stream says of itself.
#[derive(Debug, Clone, Copy)]
pub struct AudioProperties {
    pub duration_ms: u64,
    pub sample_rate: Option<u32>,
    pub bit_depth: Option<u8>,
    pub channels: Option<u8>,
    pub bitrate: Option<u32>,
}

/// The number at the front of a field such as `3/12`.
pub open spec fn number_prefix(s: Seq<char>) -> Option<nat> {
    parsed_number(trimmed(s.take(first_index(s, '/'))), u32::MAX as nat)
}

pub fn parse_num_prefix(s: &str) -> (r: Option<u32>)
    ensures
        r is Some == number_prefix(s@) is Some,
        r matches Some(n) ==> number_prefix(s@) == Some(n as nat),
{
    let head = match text::split_at_char(s, '/') {
        Some((a, _)) => a,
        None => {
            proof {
                text::lemma_first_index(s@, '/');
                if first_index(s@, '/') < s@.len() {
                    assert(s@.contains('/'));
                }
                assert(s@.take(first_index(s@, '/')) =~= s@);
            }
            s
        },
    };
    match text::parse_number(text::trim(head), u32::MAX as u64) {
        Some(n) => Some(n as u32),
        None => None,
    }
}

/// Whether a flag is set: `1`, `true` or `yes`, in any case and with white space
/// around it.
pub open spec fn flag_set(s: Seq<char>) -> bool {
    let t = trimmed(s);
    t == "1"@ || lowered(t) == lowered("true"@) || lowered(t) == lowered("yes"@)
}

pub fn parse_bool_flag(s: &str) -> (r: bool)
    ensures
        r == flag_set(s@),
{
    let t = text::trim(s);
    text::same(t, "1") || text::same_ignoring_case(t, "true") || text::same_ignoring_case(
        t,
        "yes",
    )
}

/// The year at the front of a date: its first four characters, where all of them
/// are digits.
pub open spec fn year_of(s: Seq<char>) -> Option<int> {
    let t = trimmed(s);
    if t.len() >= 4 && text::all_digits(t.take(4)) {
        Some(text::digits_value(t.take(4)) as int)
    } else {
        None
    }
}

pub fn parse_year(s: &str) -> (r: Option<i32>)
    ensures
        r is Some == year_of(s@) is Some,
        r matches Some(y) ==> year_of(s@) == Some(y as int),
{
    let t = text::chars_of(text::trim(s));
    if t.len() < 4 {
        return None;
    }
    let mut y: i32 = 0;
    let mut i: usize = 0;
    let ghost head = t@.take(4);
    while i < 4
        invariant
            i <= 4 <= t@.len(),
            t@ == trimmed(s@),
            head == t@.take(4),
            text::all_digits(head.take(i as int)),
            y == text::digits_value(head.take(i as int)),
            0 <= y,
            i == 0 ==> y == 0,
            i == 1 ==> y <= 9,
            i == 2 ==> y <= 99,
            i == 3 ==> y <= 999,
        decreases 4 - i,
    {
        let c = t[i];
        assert(head[i as int] == c);
        if !('0' <= c && c <= '9') {
            assert(!text::is_digit(head[i as int]));
            return None;
        }
        proof {
            let next = head.take(i + 1);
            assert(next.drop_last() =~= head.take(i as int));
            assert(next.last() == c);
            assert forall|j: int| 0 <= j < next.len() implies text::is_digit(
                #[trigger] next[j],
            ) by {
                if j < i {
                    assert(next[j] == head.take(i as int)[j]);
                }
            }
        }
        y = y * 10 + (c as i32 - '0' as i32);
        i = i + 1;
    }
    assert(head.take(4) =~= head);
    Some(y)
}

/// Whether a text is a decimal numeral: a sign or none, then digits with at most one
/// point among them.
pub open spec fn is_numeral(s: Seq<char>) -> bool {
    let d = unsigned_part(s);
    &&& forall|i: int| 0 <= i < d.len() ==> text::is_digit(#[trigger] d[i]) || d[i] == '.'
    &&& forall|i: int, j: int| 0 <= i < j < d.len() ==> !(#[trigger] d[i] == '.' && #[trigger] d[j] == '.')
    &&& exists|i: int| 0 <= i < d.len() && text::is_digit(#[trigger] d[i])
}

/// A text without its sign.
pub open spec fn unsigned_part(s: Seq<char>) -> Seq<char> {
    if s.len() > 0 && (s[0] == '-' || s[0] == '+') {
        s.skip(1)
    } else {
        s
    }
}

/// What is written before the unit `dB`, in any case, or everything where it is absent.
pub open spec fn before_unit(s: Seq<char>) -> Seq<char> {
    let t = lowered(trimmed(s));
    if text::ends_with(t, "db"@) {
        trimmed(t.take(t.len() - "db"@.len()))
    } else {
        t
    }
}

/// The numeral of a gain or a peak, such as `-7.30 dB`.
pub open spec fn level_of(s: Seq<char>) -> Option<Seq<char>> {
    if is_numeral(before_unit(s)) {
        Some(before_unit(s))
    } else {
        None
    }
}

fn numeral(s: &str) -> (r: bool)
    ensures
        r == is_numeral(s@),
{
    let v = text::chars_of(s);
    let ghost d = unsigned_part(s@);
    let from: usize = if v.len() > 0 && (v[0] == '-' || v[0] == '+') { 1 } else { 0 };
    assert(d =~= s@.skip(from as int));
    let mut digits = false;
    let mut point = false;
    let mut i: usize = from;
    while i < v.len()
        invariant
            from <= i <= v@.len(),
            v@ == s@,
            d == s@.skip(from as int),
            d == unsigned_part(s@),
            forall|k: int| 0 <= k < i - from ==> text::is_digit(#[trigger] d[k]) || d[k] == '.',
            forall|k: int, j: int|
                0 <= k < j < i - from ==> !(#[trigger] d[k] == '.' && #[trigger] d[j] == '.'),
            point == exists|k: int| 0 <= k < i - from && #[trigger] d[k] == '.',
            digits == exists|k: int| 0 <= k < i - from && text::is_digit(#[trigger] d[k]),
        decreases v@.len() - i,
    {
        let c = v[i];
        assert(d[i - from] == c);
        if '0' <= c && c <= '9' {
            digits = true;
            assert(text::is_digit(d[i - from]));
        } else if c == '.' && !point {
            point = true;
        } else {
            assert(!is_numeral(s@));
            return false;
        }
        i = i + 1;
    }
    digits
}

/// Read a gain or a peak. What is no number is left out.
pub fn parse_level(s: &str) -> (r: Option<String>)
    ensures
        opt_text(r) == level_of(s@),
{
    let t = text::to_lower(text::trim(s));
    let number = match text::strip_suffix(t.as_str(), "db") {
        Some(rest) => text::trim(rest),
        None => t.as_str(),
    };
    if numeral(number) {
        Some(text::owned(number))
    } else {
        None
    }
}

/// The name of the codec in a file.
pub open spec fn codec_name(file_type: FileType, mp4: Mp4Codec) -> Seq<char> {
    match file_type {
        FileType::Flac => "flac"@,
        FileType::Mpeg => "mp3"@,
        FileType::Wav => "pcm"@,
        FileType::Aiff => "pcm"@,
        FileType::Mp4 => mp4_codec_name(mp4),
        FileType::Other => "unknown"@,
    }
}

/// An MP4 container whose codec cannot be told is taken to hold AAC.
pub open spec fn mp4_codec_name(mp4: Mp4Codec) -> Seq<char> {
    if mp4 == Mp4Codec::Alac {
        "alac"@
    } else {
        "aac"@
    }
}

pub fn detect_mp4_codec(mp4: Mp4Codec) -> (r: &'static str)
    ensures
        r@ == mp4_codec_name(mp4),
{
    match mp4 {
        Mp4Codec::Alac => "alac",
        _ => "aac",
    }
}

pub fn codec_for(file_type: FileType, mp4: Mp4Codec) -> (r: &'static str)
    ensures
        r@ == codec_name(file_type, mp4),
{
    match file_type {
        FileType::Flac => "flac",
        FileType::Mpeg => "mp3",
        FileType::Wav => "pcm",
        FileType::Aiff => "pcm",
        FileType::Mp4 => detect_mp4_codec(mp4),
        FileType::Other => "unknown",
    }
}

pub open spec fn lossless(codec: Seq<char>) -> bool {
    codec == "flac"@ || codec == "alac"@ || codec == "pcm"@
}

pub fn codec_is_lossless(codec: &str) -> (r: bool)
    ensures
        r == lossless(codec@),
{
    text::same(codec, "flac") || text::same(codec, "alac") || text::same(codec, "pcm")
}

/// The MIME type of a file.
pub open spec fn mime_name(file_type: FileType) -> Seq<char> {
    match file_type {
        FileType::Flac => "audio/flac"@,
        FileType::Mp4 => "audio/mp4"@,
        FileType::Mpeg => "audio/mpeg"@,
        FileType::Wav => "audio/x-wav"@,
        FileType::Aiff => "audio/x-aiff"@,
        FileType::Other => "application/octet-stream"@,
    }
}

pub fn mime_for(file_type: FileType) -> (r: &'static str)
    ensures
        r@ == mime_name(file_type),
{
    match file_type {
        FileType::Flac => "audio/flac",
        FileType::Mp4 => "audio/mp4",
        FileType::Mpeg => "audio/mpeg",
        FileType::Wav => "audio/x-wav",
        FileType::Aiff => "audio/x-aiff",
        FileType::Other => "application/octet-stream",
    }
}

/// A field of the tag, absent where there is no tag.
pub open spec fn field(tag: Option<TagFields>, get: spec_fn(TagFields) -> Option<String>) -> Option<
    Seq<char>,
> {
    match tag {
        Some(t) => opt_text(get(t)),
        None => None,
    }
}

fn parsed_prefix(s: &Option<String>) -> (r: Option<u32>)
    ensures
        r is Some == (s matches Some(t) && number_prefix(t@) is Some),
        r matches Some(n) ==> number_prefix(s->0@) == Some(n as nat),
{
    match s {
        Some(t) => parse_num_prefix(t.as_str()),
        None => None,
    }
}

fn year_in(s: &Option<String>) -> (r: Option<i32>)
    ensures
        r is Some == (s matches Some(t) && year_of(t@) is Some),
        r matches Some(y) ==> year_of(s->0@) == Some(y as int),
{
    match s {
        Some(t) => parse_year(t.as_str()),
        None => None,
    }
}

fn level_in(s: &Option<String>) -> (r: Option<String>)
    ensures
        opt_text(r) == match opt_text(*s) {
            Some(t) => level_of(t),
            None => None,
        },
{
    match s {
        Some(t) => parse_level(t.as_str()),
        None => None,
    }
}

/// What is kept of a track: its tag's fields, read where they are numbers or
/// flags, the audio properties, and codec and MIME type of its file. The bit depth
/// is kept for lossless codecs only.
pub fn read(
    tag: Option<TagFields>,
    props: AudioProperties,
    file_type: FileType,
    mp4: Mp4Codec,
    file_size: u64,
) -> (r: TrackTags)
    ensures
        opt_text(r.title) == field(tag, |t: TagFields| t.title),
        opt_text(r.artist) == field(tag, |t: TagFields| t.artist),
        opt_text(r.album_artist) == field(tag, |t: TagFields| t.album_artist),
        opt_text(r.album) == field(tag, |t: TagFields| t.album),
        opt_text(r.genre) == field(tag, |t: TagFields| t.genre),
        opt_text(r.composer) == field(tag, |t: TagFields| t.composer),
        opt_text(r.conductor) == field(tag, |t: TagFields| t.conductor),
        opt_text(r.performer) == field(tag, |t: TagFields| t.performer),
        r.compilation == match field(tag, |t: TagFields| t.compilation) {
            Some(s) => flag_set(s),
            None => false,
        },
        (match r.track_num {
            Some(n) => Some(n as nat),
            None => None,
        }) == match field(tag, |t: TagFields| t.track_number) {
            Some(s) => number_prefix(s),
            None => None,
        },
        (match r.disc_num {
            Some(n) => Some(n as nat),
            None => None,
        }) == match field(tag, |t: TagFields| t.disc_number) {
            Some(s) => number_prefix(s),
            None => None,
        },
        (match r.year {
            Some(n) => Some(n as int),
            None => None,
        }) == match field(tag, |t: TagFields| t.year) {
            Some(s) => year_of(s),
            None => None,
        },
        opt_text(r.artist_sort) == field(tag, |t: TagFields| t.artist_sort),
        opt_text(r.album_artist_sort) == field(tag, |t: TagFields| t.album_artist_sort),
        opt_text(r.album_sort) == field(tag, |t: TagFields| t.album_sort),
        opt_text(r.title_sort) == field(tag, |t: TagFields| t.title_sort),
        opt_text(r.composer_sort) == field(tag, |t: TagFields| t.composer_sort),
        opt_text(r.mb_recording_id) == field(tag, |t: TagFields| t.mb_recording_id),
        opt_text(r.mb_release_id) == field(tag, |t: TagFields| t.mb_release_id),
        opt_text(r.mb_release_group_id) == field(tag, |t: TagFields| t.mb_release_group_id),
        opt_text(r.mb_artist_id) == field(tag, |t: TagFields| t.mb_artist_id),
        opt_text(r.mb_release_artist_id) == field(tag, |t: TagFields| t.mb_release_artist_id),
        opt_text(r.rg_track_gain) == match field(tag, |t: TagFields| t.rg_track_gain) {
            Some(s) => level_of(s),
            None => None,
        },
        opt_text(r.rg_track_peak) == match field(tag, |t: TagFields| t.rg_track_peak) {
            Some(s) => level_of(s),
            None => None,
        },
        opt_text(r.rg_album_gain) == match field(tag, |t: TagFields| t.rg_album_gain) {
            Some(s) => level_of(s),
            None => None,
        },
        opt_text(r.rg_album_peak) == match field(tag, |t: TagFields| t.rg_album_peak) {
            Some(s) => level_of(s),
            None => None,
        },
        (match r.original_year {
            Some(n) => Some(n as int),
            None => None,
        }) == match field(tag, |t: TagFields| t.original_year) {
            Some(s) => year_of(s),
            None => None,
        },
        r.duration_ms == Some(props.duration_ms),
        r.sample_rate == props.sample_rate,
        r.bit_depth == if lossless(codec_name(file_type, mp4)) {
            props.bit_depth
        } else {
            None
        },
        r.channels == props.channels,
        r.bitrate == props.bitrate,
        r.codec@ == codec_name(file_type, mp4),
        r.mime_type@ == mime_name(file_type),
        r.file_size == file_size,
{
    let codec = codec_for(file_type, mp4);
    let bit_depth = if codec_is_lossless(codec) {
        props.bit_depth
    } else {
        None
    };
    let fields = match tag {
        Some(t) => t,
        None => TagFields {
            title: None,
            artist: None,
            album_artist: None,
            album: None,
            genre: None,
            compilation: None,
            track_number: None,
            disc_number: None,
            composer: None,
            conductor: None,
            performer: None,
            year: None,
            rg_track_gain: None,
            rg_track_peak: None,
            rg_album_gain: None,
            rg_album_peak: None,
            artist_sort: None,
            album_artist_sort: None,
            album_sort: None,
            title_sort: None,
            composer_sort: None,
            original_year: None,
            mb_recording_id: None,
            mb_release_id: None,
            mb_release_group_id: None,
            mb_artist_id: None,
            mb_release_artist_id: None,
        },
    };
    let compilation = match &fields.compilation {
        Some(s) => parse_bool_flag(s.as_str()),
        None => false,
    };
    let track_num = parsed_prefix(&fields.track_number);
    let disc_num = parsed_prefix(&fields.disc_number);
    let year = year_in(&fields.year);
    let original_year = year_in(&fields.original_year);
    let rg_track_gain = level_in(&fields.rg_track_gain);
    let rg_track_peak = level_in(&fields.rg_track_peak);
    let rg_album_gain = level_in(&fields.rg_album_gain);
    let rg_album_peak = level_in(&fields.rg_album_peak);
    TrackTags {
        title: fields.title,
        artist: fields.artist,
        album_artist: fields.album_artist,
        album: fields.album,
        genre: fields.genre,
        compilation,
        track_num,
        disc_num,
        composer: fields.composer,
        conductor: fields.conductor,
        performer: fields.performer,
        year,
        rg_track_gain,
        rg_track_peak,
        rg_album_gain,
        rg_album_peak,
        artist_sort: fields.artist_sort,
        album_artist_sort: fields.album_artist_sort,
        album_sort: fields.album_sort,
        title_sort: fields.title_sort,
        composer_sort: fields.composer_sort,
        original_year,
        mb_recording_id: fields.mb_recording_id,
        mb_release_id: fields.mb_release_id,
        mb_release_group_id: fields.mb_release_group_id,
        mb_artist_id: fields.mb_artist_id,
        mb_release_artist_id: fields.mb_release_artist_id,
        duration_ms: Some(props.duration_ms),
        sample_rate: props.sample_rate,
        bit_depth,
        channels: props.channels,
        bitrate: props.bitrate,
        codec: text::owned(codec),
        mime_type: text::owned(mime_for(file_type)),
        file_size,
    }
}

// ── What is kept ─────────────────────────────────────────────────────────

/// Every field of a tag is kept under its own name: texts as they are, levels as their
/// numerals. What the audio stream says is kept with them.
pub proof fn fields_are_kept_under_their_names(
    t: TagFields,
    props: AudioProperties,
    file_type: FileType,
    mp4: Mp4Codec,
    file_size: u64,
    r: TrackTags,
)
    requires
        call_ensures(read, (Some(t), props, file_type, mp4, file_size), r),
    ensures
        opt_text(r.title) == opt_text(t.title),
        opt_text(r.artist) == opt_text(t.artist),
        opt_text(r.album_artist) == opt_text(t.album_artist),
        opt_text(r.album) == opt_text(t.album),
        opt_text(r.genre) == opt_text(t.genre),
        opt_text(r.composer) == opt_text(t.composer),
        opt_text(r.conductor) == opt_text(t.conductor),
        opt_text(r.performer) == opt_text(t.performer),
        opt_text(r.artist_sort) == opt_text(t.artist_sort),
        opt_text(r.album_artist_sort) == opt_text(t.album_artist_sort),
        opt_text(r.album_sort) == opt_text(t.album_sort),
        opt_text(r.title_sort) == opt_text(t.title_sort),
        opt_text(r.composer_sort) == opt_text(t.composer_sort),
        opt_text(r.mb_recording_id) == opt_text(t.mb_recording_id),
        opt_text(r.mb_release_id) == opt_text(t.mb_release_id),
        opt_text(r.mb_release_group_id) == opt_text(t.mb_release_group_id),
        opt_text(r.mb_artist_id) == opt_text(t.mb_artist_id),
        opt_text(r.mb_release_artist_id) == opt_text(t.mb_release_artist_id),
        t.rg_track_gain is None ==> r.rg_track_gain is None,
        t.rg_track_gain matches Some(s) ==> opt_text(r.rg_track_gain) == level_of(s@),
        t.rg_track_peak is None ==> r.rg_track_peak is None,
        t.rg_track_peak matches Some(s) ==> opt_text(r.rg_track_peak) == level_of(s@),
        t.rg_album_gain is None ==> r.rg_album_gain is None,
        t.rg_album_gain matches Some(s) ==> opt_text(r.rg_album_gain) == level_of(s@),
        t.rg_album_peak is None ==> r.rg_album_peak is None,
        t.rg_album_peak matches Some(s) ==> opt_text(r.rg_album_peak) == level_of(s@),
        r.duration_ms == Some(props.duration_ms),
        r.sample_rate == props.sample_rate,
        r.channels == props.channels,
        r.bitrate == props.bitrate,
        r.file_size == file_size,
{
}

/// A number is the one before a slash, or all of the field; a flag is set by `1`, and a
/// year is made of the four digits at the front of a date.
pub proof fn numbers_are_read_from_the_front(
    t: TagFields,
    props: AudioProperties,
    file_type: FileType,
    mp4: Mp4Codec,
    file_size: u64,
    r: TrackTags,
    n: u32,
    rest: Seq<char>,
)
    requires
        call_ensures(read, (Some(t), props, file_type, mp4, file_size), r),
    ensures
        opt_text(t.track_number) == Some(text::decimal(n as nat)) || opt_text(t.track_number)
            == Some(text::decimal(n as nat) + "/"@ + rest) ==> r.track_num == Some(n),
        opt_text(t.disc_number) == Some(text::decimal(n as nat)) || opt_text(t.disc_number) == Some(
            text::decimal(n as nat) + "/"@ + rest,
        ) ==> r.disc_num == Some(n),
        t.track_number is None ==> r.track_num is None,
        t.disc_number is None ==> r.disc_num is None,
        opt_text(t.compilation) == Some("1"@) ==> r.compilation,
        t.compilation is None ==> !r.compilation,
        text::decimal(n as nat).len() == 4 && (opt_text(t.year) == Some(text::decimal(n as nat))
            || opt_text(t.year) == Some(text::decimal(n as nat) + "-"@ + rest + "-01"@))
            ==> r.year == Some(n as i32),
        t.year is None ==> r.year is None,
        text::decimal(n as nat).len() == 4 && opt_text(t.original_year) == Some(
            text::decimal(n as nat),
        ) ==> r.original_year == Some(n as i32),
        t.original_year is None ==> r.original_year is None,
{
    let d = text::decimal(n as nat);
    reveal_strlit("/");
    reveal_strlit("1");
    reveal_strlit("-01");
    text::lemma_decimal(n as nat);
    assert(text::is_digit(d[0]) && text::is_digit(d[d.len() - 1]));
    assert forall|i: int| 0 <= i < d.len() implies d[i] != '/' by {
        assert(text::is_digit(d[i]));
    }
    text::lemma_is_first_index(d, '/', d.len() as int);
    assert(d.take(d.len() as int) =~= d);
    let s = d + "/"@ + rest;
    assert(s[d.len() as int] == '/');
    assert forall|i: int| 0 <= i < d.len() implies s[i] != '/' by {
        assert(s[i] == d[i]);
    }
    text::lemma_is_first_index(s, '/', d.len() as int);
    assert(s.take(d.len() as int) =~= d);
    text::lemma_trimmed_stays(d);
    text::decimal_reads_back(n as nat, u32::MAX as nat);
    text::lemma_trimmed_stays("1"@);
    if d.len() == 4 {
        lemma_four_digits(d);
        assert(d.take(4) =~= d);
        let y = d + "-"@ + rest + "-01"@;
        assert(y[0] == d[0]);
        assert(y.last() == '1');
        text::lemma_trimmed_stays(y);
        assert(y.take(4) =~= d);
    }
}

proof fn lemma_four_digits(d: Seq<char>)
    requires
        d.len() == 4,
        text::all_digits(d),
    ensures
        text::digits_value(d) < 10000,
{
    reveal_with_fuel(text::digits_value, 5);
    let c = d.drop_last();
    let b = c.drop_last();
    let a = b.drop_last();
    assert(text::is_digit(d[0]) && text::is_digit(d[1]) && text::is_digit(d[2]) && text::is_digit(
        d[3],
    ));
    assert(d.last() == d[3] && c.last() == d[2] && b.last() == d[1] && a.last() == d[0]);
    assert(text::digits_value(a) < 10);
    assert(text::digits_value(b) < 100);
    assert(text::digits_value(c) < 1000);
}

/// The codec and the type of a file are told by its kind; of an MP4 file by what is in it.
/// How many bits a sample has counts only where the codec keeps them.
pub proof fn codecs_are_told_by_the_file(
    tag: Option<TagFields>,
    props: AudioProperties,
    file_type: FileType,
    mp4: Mp4Codec,
    file_size: u64,
    r: TrackTags,
)
    requires
        call_ensures(read, (tag, props, file_type, mp4, file_size), r),
    ensures
        file_type is Flac ==> r.codec@ == "flac"@ && r.mime_type@ == "audio/flac"@ && r.bit_depth
            == props.bit_depth,
        file_type is Mpeg ==> r.codec@ == "mp3"@ && r.mime_type@ == "audio/mpeg"@ && r.bit_depth
            is None,
        file_type is Wav ==> r.codec@ == "pcm"@ && r.mime_type@ == "audio/x-wav"@ && r.bit_depth
            == props.bit_depth,
        file_type is Aiff ==> r.codec@ == "pcm"@ && r.mime_type@ == "audio/x-aiff"@ && r.bit_depth
            == props.bit_depth,
        file_type is Mp4 ==> r.mime_type@ == "audio/mp4"@,
        file_type is Mp4 && mp4 is Alac ==> r.codec@ == "alac"@ && r.bit_depth == props.bit_depth,
        file_type is Mp4 && !(mp4 is Alac) ==> r.codec@ == "aac"@ && r.bit_depth is None,
        file_type is Other ==> r.codec@ == "unknown"@ && r.mime_type@
            == "application/octet-stream"@ && r.bit_depth is None,
{
    reveal_strlit("flac");
    reveal_strlit("alac");
    reveal_strlit("pcm");
    reveal_strlit("mp3");
    reveal_strlit("aac");
    reveal_strlit("unknown");
    assert("mp3"@[0] == 'm' && "aac"@[0] == 'a' && "pcm"@[0] == 'p' && "flac"@.len() == 4
        && "alac"@.len() == 4 && "unknown"@.len() == 7 && "mp3"@.len() == 3 && "aac"@.len() == 3);
}

} // verus!
