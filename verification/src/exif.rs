//! The EXIF data of a photo: which entries are read, how each is converted,
//! and which dates count as the date the photo was taken.

use vstd::prelude::*;
use vstd::string::*;
use crate::error::Error;
use chrono::TimeZone;

verus! {

/// Parsed EXIF data of an image.
#[verifier::external_type_specification]
#[verifier::external_body]
pub struct ExExifData(rexif::ExifData);

/// The value of an EXIF entry, as far as it is read.
#[derive(Debug, Clone, PartialEq, Eq)]
pub enum ExifValue {
    Ascii(String),
    /// Unsigned rationals, as numerator and denominator.
    URational(Vec<(u32, u32)>),
    U16(Vec<u16>),
    /// A value of another type.
    Other,
}

/// An EXIF entry: its tag's number, its value and the value's readable text.
#[derive(Debug, Clone, PartialEq, Eq)]
pub struct ExifEntry {
    pub tag: u32,
    pub value: ExifValue,
    pub readable: String,
}

/// What the value of an EXIF entry holds, as far as it is read.
pub enum ExifValueView {
    Ascii(Seq<char>),
    URational(Seq<(u32, u32)>),
    U16(Seq<u16>),
    Other,
}

/// What an EXIF entry holds: its tag's number, its value and the value's
/// readable text.
pub struct ExifEntryView {
    pub tag: u32,
    pub value: ExifValueView,
    pub readable: Seq<char>,
}

impl View for ExifValue {
    type V = ExifValueView;

    open spec fn view(&self) -> ExifValueView {
        match self {
            ExifValue::Ascii(s) => ExifValueView::Ascii(s@),
            ExifValue::URational(v) => ExifValueView::URational(v@),
            ExifValue::U16(v) => ExifValueView::U16(v@),
            ExifValue::Other => ExifValueView::Other,
        }
    }
}

impl View for ExifEntry {
    type V = ExifEntryView;

    open spec fn view(&self) -> ExifEntryView {
        ExifEntryView { tag: self.tag, value: self.value@, readable: self.readable@ }
    }
}

/// The views of EXIF entries.
pub open spec fn entry_views(entries: Seq<ExifEntry>) -> Seq<ExifEntryView> {
    entries.map_values(|e: ExifEntry| e@)
}

/// What reading a file's EXIF data gives: its entries, or the kind of
/// error the reader reports.
pub enum ExifParseView {
    Parsed(Seq<ExifEntryView>),
    JpegWithoutExif,
    FileTypeUnknown,
    UnsupportedNamespace,
    Failed,
}

/// Whether the reader's outcome means the image simply holds no EXIF data:
/// a JPEG without it, a file of a kind that holds none, or an unsupported
/// namespace.
pub open spec fn no_exif(outcome: ExifParseView) -> bool {
    ||| outcome is JpegWithoutExif
    ||| outcome is FileTypeUnknown
    ||| outcome is UnsupportedNamespace
}

/// The entries of parsed EXIF data, as the library reads them.
pub uninterp spec fn exif_data_entries(data: rexif::ExifData) -> Seq<ExifEntryView>;

/// What `rexif::parse_buffer` finds in a file's bytes.
pub uninterp spec fn exif_parse(bytes: Seq<u8>) -> ExifParseView;

/// The error the EXIF reader reports.
#[derive(Debug, Clone, PartialEq, Eq)]
pub enum ExifFailure {
    /// A JPEG file without EXIF data.
    JpegWithoutExif,
    /// A file of a kind the reader does not know.
    FileTypeUnknown,
    /// EXIF data in a namespace the reader does not support.
    UnsupportedNamespace,
    /// Broken data; the text tells how.
    Failed(String),
}

/// EXIF data of a photo, as far as the library keeps it. GPS coordinates are
/// kept as their degrees, minutes and seconds.
#[derive(Debug, Clone, PartialEq, Eq)]
pub struct Exif {
    pub manufactorer: Option<String>,
    pub model: Option<String>,
    pub aperture: Option<String>,
    pub exposure_time: Option<String>,
    pub iso: Option<i32>,
    pub focal_length: Option<i32>,
    pub focal_length_35mm_equiv: Option<i32>,
    pub orientation: Option<i32>,
    /// When the photo was taken, in seconds since the epoch.
    pub date_taken: Option<i64>,
    pub gps_latitude: Option<Vec<(u32, u32)>>,
    pub gps_longitude: Option<Vec<(u32, u32)>>,
}

/// Tag numbers of the entries read.
pub const TAG_MAKE: u32 = 0x010f;
pub const TAG_MODEL: u32 = 0x0110;
pub const TAG_ORIENTATION: u32 = 0x0112;
pub const TAG_DATE_TIME: u32 = 0x0132;
pub const TAG_EXPOSURE_TIME: u32 = 0x829a;
pub const TAG_F_NUMBER: u32 = 0x829d;
pub const TAG_ISO_SPEED_RATINGS: u32 = 0x8827;
pub const TAG_DATE_TIME_ORIGINAL: u32 = 0x9003;
pub const TAG_DATE_TIME_DIGITIZED: u32 = 0x9004;
pub const TAG_FOCAL_LENGTH: u32 = 0x920a;
pub const TAG_FOCAL_LENGTH_IN_35MM_FILM: u32 = 0xa405;
pub const TAG_GPS_LATITUDE: u32 = 0x0002;
pub const TAG_GPS_LONGITUDE: u32 = 0x0004;

/// Calls `rexif::parse_buffer`: the data it finds in the bytes, or its error:
/// the three kinds the library tells apart, or another one with its `Debug`
/// text, of which nothing is said.
#[verifier::external_body]
fn parse_exif_buffer(bytes: &[u8]) -> (r: Result<rexif::ExifData, ExifFailure>)
    ensures
        match r {
            Ok(data) => exif_parse(bytes@) == ExifParseView::Parsed(exif_data_entries(data)),
            Err(ExifFailure::JpegWithoutExif) => exif_parse(bytes@) == ExifParseView::JpegWithoutExif,
            Err(ExifFailure::FileTypeUnknown) => exif_parse(bytes@) == ExifParseView::FileTypeUnknown,
            Err(ExifFailure::UnsupportedNamespace) => exif_parse(bytes@) == ExifParseView::UnsupportedNamespace,
            Err(ExifFailure::Failed(_)) => exif_parse(bytes@) == ExifParseView::Failed,
        },
{
    match rexif::parse_buffer(bytes) {
        Ok(data) => Ok(data),
        Err(rexif::ExifError::JpegWithoutExif(_)) => Err(ExifFailure::JpegWithoutExif),
        Err(rexif::ExifError::FileTypeUnknown) => Err(ExifFailure::FileTypeUnknown),
        Err(rexif::ExifError::UnsupportedNamespace) => Err(ExifFailure::UnsupportedNamespace),
        Err(error) => Err(ExifFailure::Failed(format!("{:?}", error))),
    }
}

/// The number of entries of the data (`entries.len()`).
#[verifier::external_body]
fn exif_entry_count(data: &rexif::ExifData) -> (n: usize)
    ensures
        n == exif_data_entries(*data).len(),
{
    data.entries.len()
}

/// The entry of the data at `index` (`entries.get`), converted: its tag's
/// number, its value where it is text, unsigned rationals or 16-bit
/// numbers, and its readable text.
#[verifier::external_body]
fn exif_entry(data: &rexif::ExifData, index: usize) -> (entry: Option<ExifEntry>)
    ensures
        match entry {
            Some(e) => index < exif_data_entries(*data).len() && e@ == exif_data_entries(*data)[index as int],
            None => index >= exif_data_entries(*data).len(),
        },
{
    data.entries.get(index).map(|e| ExifEntry {
        tag: e.tag as u32,
        value: match &e.value {
            rexif::TagValue::Ascii(s) => ExifValue::Ascii(s.clone()),
            rexif::TagValue::URational(v) => ExifValue::URational(v.iter().map(|r| (r.numerator, r.denominator)).collect()),
            rexif::TagValue::U16(v) => ExifValue::U16(v.clone()),
            _ => ExifValue::Other,
        },
        readable: e.value_more_readable.to_string(),
    })
}

/// The time an EXIF date (`%Y:%m:%d %H:%M:%S`, in UTC) stands for, in
/// seconds since the epoch.
pub uninterp spec fn exif_datetime(text: Seq<char>) -> Option<i64>;

/// Calls `chrono::Utc.datetime_from_str` with the EXIF date format and takes
/// the timestamp of the result; none where the text is no such date.
#[verifier::external_body]
#[allow(deprecated)]
fn parse_exif_datetime(text: &str) -> (r: Option<i64>)
    ensures
        r == exif_datetime(text@),
{
    chrono::Utc.datetime_from_str(text, "%Y:%m:%d %H:%M:%S").ok().map(|d| d.timestamp())
}

/// A text without its spaces.
fn without_spaces(text: &str) -> (r: String)
    ensures
        r@ == text@.filter(|c: char| c != ' '),
{
    let ghost pred = |c: char| c != ' ';
    let n = text.unicode_len();
    let mut r = String::new();
    let mut i: usize = 0;
    while i < n
        invariant
            n == text@.len(),
            i <= n,
            pred == (|c: char| c != ' '),
            r@ == text@.take(i as int).filter(pred),
        decreases n - i,
    {
        let c = text.get_char(i);
        proof {
            assert(text@.take(i + 1) =~= text@.take(i as int).push(text@[i as int]));
            text@.take(i as int).lemma_filter_push(text@[i as int], pred);
        }
        if c != ' ' {
            let piece = text.substring_char(i, i + 1);
            r.append(piece);
            proof {
                assert(piece@ =~= seq![c]);
                assert(r@ =~= text@.take(i as int).filter(pred).push(c));
            }
        }
        i = i + 1;
    }
    proof {
        assert(text@.take(n as int) =~= text@);
    }
    r
}

/// The first entry with the given tag.
pub open spec fn entry_with_tag(entries: Seq<ExifEntryView>, tag: u32) -> Option<ExifEntryView> {
    if exists|i: int| 0 <= i < entries.len() && (#[trigger] entries[i]).tag == tag {
        let i = choose|i: int|
            0 <= i < entries.len() && (#[trigger] entries[i]).tag == tag && forall|j: int| 0 <= j < i ==> entries[j].tag != tag;
        Some(entries[i])
    } else {
        None
    }
}

/// An entry read as text: its text, or the readable text of rationals.
pub open spec fn entry_text(entry: ExifEntryView) -> Option<Seq<char>> {
    match entry.value {
        ExifValueView::Ascii(s) => Some(s),
        ExifValueView::URational(_) => Some(entry.readable),
        _ => None,
    }
}

/// An entry read as a number: the first rational's quotient (each part taken
/// as a 32-bit signed number, the quotient rounded toward zero), or the first
/// 16-bit number. None where there is no first value or the quotient is
/// undefined (a zero denominator, or the one quotient that overflows).
pub open spec fn entry_number(entry: ExifEntryView) -> Option<i32> {
    match entry.value {
        ExifValueView::URational(v) => if v.len() == 0 {
            None
        } else {
            let n = v[0].0 as i32;
            let d = v[0].1 as i32;
            if d == 0 || (n == i32::MIN && d == -1) {
                None
            } else {
                Some((if (n < 0) == (d < 0) { abs_i(n) / abs_i(d) } else { -(abs_i(n) / abs_i(d)) }) as i32)
            }
        },
        ExifValueView::U16(v) => if v.len() == 0 {
            None
        } else {
            Some(v[0] as i32)
        },
        _ => None,
    }
}

/// The absolute value of a number.
pub open spec fn abs_i(x: i32) -> int {
    if x < 0 { -x } else { x as int }
}

/// An entry read as a date.
pub open spec fn entry_date(entry: ExifEntryView) -> Option<i64> {
    match entry.value {
        ExifValueView::Ascii(s) => exif_datetime(s),
        _ => None,
    }
}

/// An entry read as a GPS coordinate: its three rationals.
pub open spec fn entry_coordinate(entry: ExifEntryView) -> Option<Seq<(u32, u32)>> {
    match entry.value {
        ExifValueView::URational(v) => if v.len() == 3 { Some(v) } else { None },
        _ => None,
    }
}

/// The text of the entry with the tag, if any.
pub open spec fn text_of(entries: Seq<ExifEntryView>, tag: u32) -> Option<Seq<char>> {
    match entry_with_tag(entries, tag) {
        Some(e) => entry_text(e),
        None => None,
    }
}

/// The number of the entry with the tag, if any.
pub open spec fn number_of(entries: Seq<ExifEntryView>, tag: u32) -> Option<i32> {
    match entry_with_tag(entries, tag) {
        Some(e) => entry_number(e),
        None => None,
    }
}

/// The date of the entry with the tag, if any.
pub open spec fn date_of(entries: Seq<ExifEntryView>, tag: u32) -> Option<i64> {
    match entry_with_tag(entries, tag) {
        Some(e) => entry_date(e),
        None => None,
    }
}

/// The coordinate of the entry with the tag, if any.
pub open spec fn coordinate_of(entries: Seq<ExifEntryView>, tag: u32) -> Option<Seq<(u32, u32)>> {
    match entry_with_tag(entries, tag) {
        Some(e) => entry_coordinate(e),
        None => None,
    }
}

/// When a photo was taken: the original date, else the image's date, else
/// the date it was digitized.
pub open spec fn date_taken_of(entries: Seq<ExifEntryView>) -> Option<i64> {
    match date_of(entries, TAG_DATE_TIME_ORIGINAL) {
        Some(d) => Some(d),
        None => match date_of(entries, TAG_DATE_TIME) {
            Some(d) => Some(d),
            None => date_of(entries, TAG_DATE_TIME_DIGITIZED),
        },
    }
}

/// The view of an optional text.
pub open spec fn text_view(o: Option<String>) -> Option<Seq<char>> {
    match o {
        Some(s) => Some(s@),
        None => None,
    }
}

/// The view of an optional coordinate.
pub open spec fn coordinate_view(o: Option<Vec<(u32, u32)>>) -> Option<Seq<(u32, u32)>> {
    match o {
        Some(v) => Some(v@),
        None => None,
    }
}

/// A text without its spaces.
pub open spec fn no_spaces(o: Option<Seq<char>>) -> Option<Seq<char>> {
    match o {
        Some(s) => Some(s.filter(|c: char| c != ' ')),
        None => None,
    }
}

/// Whether `exif` holds what the entries say.
pub open spec fn exif_of(exif: Exif, entries: Seq<ExifEntryView>) -> bool {
    &&& text_view(exif.manufactorer) == text_of(entries, TAG_MAKE)
    &&& text_view(exif.model) == text_of(entries, TAG_MODEL)
    &&& text_view(exif.aperture) == text_of(entries, TAG_F_NUMBER)
    &&& text_view(exif.exposure_time) == no_spaces(text_of(entries, TAG_EXPOSURE_TIME))
    &&& exif.iso == number_of(entries, TAG_ISO_SPEED_RATINGS)
    &&& exif.focal_length == number_of(entries, TAG_FOCAL_LENGTH)
    &&& exif.focal_length_35mm_equiv == number_of(entries, TAG_FOCAL_LENGTH_IN_35MM_FILM)
    &&& exif.orientation == number_of(entries, TAG_ORIENTATION)
    &&& exif.date_taken == date_taken_of(entries)
    &&& coordinate_view(exif.gps_latitude) == coordinate_of(entries, TAG_GPS_LATITUDE)
    &&& coordinate_view(exif.gps_longitude) == coordinate_of(entries, TAG_GPS_LONGITUDE)
}

/// The entry read for a tag is the first entry carrying it.
proof fn lemma_entry_with_tag_first(entries: Seq<ExifEntryView>, tag: u32, i: int)
    requires
        0 <= i < entries.len(),
        entries[i].tag == tag,
        forall|k: int| 0 <= k < i ==> entries[k].tag != tag,
    ensures
        entry_with_tag(entries, tag) == Some(entries[i]),
{
    let w = choose|w: int|
        0 <= w < entries.len() && (#[trigger] entries[w]).tag == tag && forall|k: int| 0 <= k < w ==> entries[k].tag != tag;
    if w < i {
        assert(entries[w].tag != tag);
    } else if w > i {
        assert(entries[i].tag != tag);
    }
}

/// The focal lengths of a photo's EXIF data are read from their own tags:
/// `focal_length` is the number of the first FocalLength entry (tag
/// 0x920a), `focal_length_35mm_equiv` that of the first FocalLengthIn35mmFilm
/// entry (tag 0xa405); without such an entry the field is empty.
pub proof fn lemma_exif_focal_lengths(x: Exif, entries: Seq<ExifEntryView>)
    requires
        exif_of(x, entries),
    ensures
        forall|i: int| #![trigger entries[i]]
            0 <= i < entries.len() && entries[i].tag == 0x920a && (forall|k: int| 0 <= k < i ==> entries[k].tag != 0x920a)
                ==> x.focal_length == entry_number(entries[i]),
        forall|i: int| #![trigger entries[i]]
            0 <= i < entries.len() && entries[i].tag == 0xa405 && (forall|k: int| 0 <= k < i ==> entries[k].tag != 0xa405)
                ==> x.focal_length_35mm_equiv == entry_number(entries[i]),
        (forall|k: int| 0 <= k < entries.len() ==> entries[k].tag != 0x920a) ==> x.focal_length is None,
        (forall|k: int| 0 <= k < entries.len() ==> entries[k].tag != 0xa405) ==> x.focal_length_35mm_equiv is None,
{
    assert forall|i: int| #![trigger entries[i]]
        0 <= i < entries.len() && entries[i].tag == 0x920a && (forall|k: int| 0 <= k < i ==> entries[k].tag != 0x920a)
            implies x.focal_length == entry_number(entries[i]) by {
        lemma_entry_with_tag_first(entries, 0x920a, i);
    }
    assert forall|i: int| #![trigger entries[i]]
        0 <= i < entries.len() && entries[i].tag == 0xa405 && (forall|k: int| 0 <= k < i ==> entries[k].tag != 0xa405)
            implies x.focal_length_35mm_equiv == entry_number(entries[i]) by {
        lemma_entry_with_tag_first(entries, 0xa405, i);
    }
}

/// Whether entry `i` is the first entry with the given tag.
pub open spec fn first_with_tag(entries: Seq<ExifEntryView>, tag: u32, i: int) -> bool {
    &&& 0 <= i < entries.len()
    &&& entries[i].tag == tag
    &&& forall|k: int| 0 <= k < i ==> entries[k].tag != tag
}

/// Whether no entry has the given tag.
pub open spec fn lacks_tag(entries: Seq<ExifEntryView>, tag: u32) -> bool {
    forall|k: int| 0 <= k < entries.len() ==> entries[k].tag != tag
}

/// Every other field of a photo's EXIF data is read from its own tag: the
/// first entry with the tag gives it (make 0x010f, model 0x0110 and aperture
/// 0x829d as text, the exposure time 0x829a as text without spaces, ISO
/// 0x8827 and orientation 0x0112 as numbers, latitude 0x0002 and longitude
/// 0x0004 as coordinates); a field whose tag no entry has is empty.
pub proof fn lemma_exif_fields(x: Exif, entries: Seq<ExifEntryView>, i: int)
    requires
        exif_of(x, entries),
    ensures
        first_with_tag(entries, 0x010f, i) ==> text_view(x.manufactorer) == entry_text(entries[i]),
        first_with_tag(entries, 0x0110, i) ==> text_view(x.model) == entry_text(entries[i]),
        first_with_tag(entries, 0x829d, i) ==> text_view(x.aperture) == entry_text(entries[i]),
        first_with_tag(entries, 0x829a, i) ==> text_view(x.exposure_time) == no_spaces(entry_text(entries[i])),
        first_with_tag(entries, 0x8827, i) ==> x.iso == entry_number(entries[i]),
        first_with_tag(entries, 0x0112, i) ==> x.orientation == entry_number(entries[i]),
        first_with_tag(entries, 0x0002, i) ==> coordinate_view(x.gps_latitude) == entry_coordinate(entries[i]),
        first_with_tag(entries, 0x0004, i) ==> coordinate_view(x.gps_longitude) == entry_coordinate(entries[i]),
        lacks_tag(entries, 0x010f) ==> x.manufactorer is None,
        lacks_tag(entries, 0x0110) ==> x.model is None,
        lacks_tag(entries, 0x829d) ==> x.aperture is None,
        lacks_tag(entries, 0x829a) ==> x.exposure_time is None,
        lacks_tag(entries, 0x8827) ==> x.iso is None,
        lacks_tag(entries, 0x0112) ==> x.orientation is None,
        lacks_tag(entries, 0x0002) ==> x.gps_latitude is None,
        lacks_tag(entries, 0x0004) ==> x.gps_longitude is None,
{
    if 0 <= i < entries.len() && forall|k: int| 0 <= k < i ==> entries[k].tag != entries[i].tag {
        lemma_entry_with_tag_first(entries, entries[i].tag, i);
    }
}

/// The date a photo was taken is its original date (tag 0x9003) where the
/// first entry with that tag holds a readable date, whatever the other
/// dates hold; only without one does the image's date (tag 0x0132) count,
/// and only without both the date it was digitized (tag 0x9004).
pub proof fn lemma_exif_date_taken(x: Exif, entries: Seq<ExifEntryView>, i: int)
    requires
        exif_of(x, entries),
        0 <= i < entries.len(),
        forall|k: int| 0 <= k < i ==> entries[k].tag != entries[i].tag,
    ensures
        entries[i].tag == 0x9003 && entry_date(entries[i]) is Some ==> x.date_taken == entry_date(entries[i]),
        entries[i].tag == 0x0132 && entry_date(entries[i]) is Some
            && (forall|k: int| 0 <= k < entries.len() && entries[k].tag == 0x9003 ==> entry_date(entries[k]) is None)
            ==> x.date_taken == entry_date(entries[i]),
        entries[i].tag == 0x9004
            && (forall|k: int| 0 <= k < entries.len() && entries[k].tag == 0x9003 ==> entry_date(entries[k]) is None)
            && (forall|k: int| 0 <= k < entries.len() && entries[k].tag == 0x0132 ==> entry_date(entries[k]) is None)
            ==> x.date_taken == entry_date(entries[i]),
{
    lemma_entry_with_tag_first(entries, entries[i].tag, i);
    lemma_date_none_when_unreadable(entries, 0x9003);
    lemma_date_none_when_unreadable(entries, 0x0132);
}

/// Where no entry with a tag holds a readable date, no date is read for it.
proof fn lemma_date_none_when_unreadable(entries: Seq<ExifEntryView>, tag: u32)
    ensures
        (forall|k: int| 0 <= k < entries.len() && entries[k].tag == tag ==> entry_date(entries[k]) is None)
            ==> date_of(entries, tag) is None,
{
    if exists|k: int| 0 <= k < entries.len() && (#[trigger] entries[k]).tag == tag {
        let k = choose|k: int| 0 <= k < entries.len() && (#[trigger] entries[k]).tag == tag;
        lemma_first_tag_exists(entries, tag, k);
        let w = choose|w: int|
            0 <= w < entries.len() && (#[trigger] entries[w]).tag == tag && forall|k: int| 0 <= k < w ==> entries[k].tag != tag;
        assert(entries[w].tag == tag);
    }
}

/// Where an entry carries a tag, a first one does.
proof fn lemma_first_tag_exists(entries: Seq<ExifEntryView>, tag: u32, w: int)
    requires
        0 <= w < entries.len(),
        entries[w].tag == tag,
    ensures
        exists|i: int| 0 <= i < entries.len() && (#[trigger] entries[i]).tag == tag && forall|k: int| 0 <= k < i ==> entries[k].tag != tag,
    decreases w,
{
    if exists|j: int| 0 <= j < w && (#[trigger] entries[j]).tag == tag {
        let j = choose|j: int| 0 <= j < w && (#[trigger] entries[j]).tag == tag;
        lemma_first_tag_exists(entries, tag, j);
    } else {
        assert(entries[w].tag == tag && forall|k: int| 0 <= k < w ==> entries[k].tag != tag);
    }
}

/// The first entry with the given tag.
fn find_entry(entries: &Vec<ExifEntry>, tag: u32) -> (r: Option<&ExifEntry>)
    ensures
        r matches Some(e) ==> entry_with_tag(entry_views(entries@), tag) == Some(e@),
        r is None ==> entry_with_tag(entry_views(entries@), tag) is None,
{
    let ghost views = entry_views(entries@);
    let mut i: usize = 0;
    while i < entries.len()
        invariant
            i <= entries@.len(),
            views == entry_views(entries@),
            forall|j: int| 0 <= j < i ==> (#[trigger] views[j]).tag != tag,
        decreases entries@.len() - i,
    {
        if entries[i].tag == tag {
            proof {
                assert(views[i as int] == entries@[i as int]@);
                let k = choose|k: int|
                    0 <= k < views.len() && (#[trigger] views[k]).tag == tag && forall|j: int| 0 <= j < k ==> views[j].tag != tag;
                if k < i {
                    assert(views[k].tag != tag);
                } else if k > i {
                    assert(views[i as int].tag != tag);
                }
            }
            return Some(&entries[i]);
        }
        proof {
            assert(views[i as int] == entries@[i as int]@);
        }
        i = i + 1;
    }
    None
}

/// Reads an entry as text.
fn convert_to_string(entry: &ExifEntry) -> (r: Option<String>)
    ensures
        text_view(r) == entry_text(entry@),
{
    match &entry.value {
        ExifValue::Ascii(s) => Some(s.clone()),
        ExifValue::URational(_) => Some(entry.readable.clone()),
        _ => None,
    }
}

/// Reads an entry as a number.
fn convert_to_i32(entry: &ExifEntry) -> (r: Option<i32>)
    ensures
        r == entry_number(entry@),
{
    match &entry.value {
        ExifValue::URational(v) => {
            if v.len() == 0 {
                return None;
            }
            let n = #[verifier::truncate] (v[0].0 as i32);
            let d = #[verifier::truncate] (v[0].1 as i32);
            if d == 0 || (n == i32::MIN && d == -1) {
                return None;
            }
            let an: i64 = if n < 0 { -(n as i64) } else { n as i64 };
            let ad: i64 = if d < 0 { -(d as i64) } else { d as i64 };
            let q: i64 = an / ad;
            assert(q <= an) by (nonlinear_arith)
                requires an >= 0, ad >= 1, q == an / ad;
            if (n < 0) == (d < 0) {
                Some(q as i32)
            } else {
                Some((-q) as i32)
            }
        },
        ExifValue::U16(v) => {
            if v.len() == 0 {
                None
            } else {
                Some(v[0] as i32)
            }
        },
        _ => None,
    }
}

/// Reads an entry as a date.
fn convert_to_datetime(entry: &ExifEntry) -> (r: Option<i64>)
    ensures
        r == entry_date(entry@),
{
    match &entry.value {
        ExifValue::Ascii(s) => parse_exif_datetime(s.as_str()),
        _ => None,
    }
}

/// Reads an entry as a GPS coordinate.
fn convert_to_coordinate(entry: &ExifEntry) -> (r: Option<Vec<(u32, u32)>>)
    ensures
        coordinate_view(r) == entry_coordinate(entry@),
{
    match &entry.value {
        ExifValue::URational(v) => if v.len() == 3 {
            Some(vstd::slice::slice_to_vec(v.as_slice()))
        } else {
            None
        },
        _ => None,
    }
}

/// The text of the entry with the tag.
fn text_entry(entries: &Vec<ExifEntry>, tag: u32) -> (r: Option<String>)
    ensures
        text_view(r) == text_of(entry_views(entries@), tag),
{
    match find_entry(entries, tag) {
        Some(e) => convert_to_string(e),
        None => None,
    }
}

/// The number of the entry with the tag.
fn number_entry(entries: &Vec<ExifEntry>, tag: u32) -> (r: Option<i32>)
    ensures
        r == number_of(entry_views(entries@), tag),
{
    match find_entry(entries, tag) {
        Some(e) => convert_to_i32(e),
        None => None,
    }
}

/// The date of the entry with the tag.
fn date_entry(entries: &Vec<ExifEntry>, tag: u32) -> (r: Option<i64>)
    ensures
        r == date_of(entry_views(entries@), tag),
{
    match find_entry(entries, tag) {
        Some(e) => convert_to_datetime(e),
        None => None,
    }
}

/// The coordinate of the entry with the tag.
fn coordinate_entry(entries: &Vec<ExifEntry>, tag: u32) -> (r: Option<Vec<(u32, u32)>>)
    ensures
        coordinate_view(r) == coordinate_of(entry_views(entries@), tag),
{
    match find_entry(entries, tag) {
        Some(e) => convert_to_coordinate(e),
        None => None,
    }
}

/// A text without its spaces.
fn remove_spaces(text: &Option<String>) -> (r: Option<String>)
    ensures
        text_view(r) == no_spaces(text_view(*text)),
{
    match text {
        Some(s) => Some(without_spaces(s.as_str())),
        None => None,
    }
}

impl Exif {
    /// EXIF data with nothing known.
    pub fn empty() -> (r: Exif)
        ensures
            r.manufactorer is None && r.model is None && r.aperture is None && r.exposure_time is None,
            r.iso is None && r.focal_length is None && r.focal_length_35mm_equiv is None && r.orientation is None,
            r.date_taken is None && r.gps_latitude is None && r.gps_longitude is None,
    {
        Exif {
            manufactorer: None,
            model: None,
            aperture: None,
            exposure_time: None,
            iso: None,
            focal_length: None,
            focal_length_35mm_equiv: None,
            orientation: None,
            date_taken: None,
            gps_latitude: None,
            gps_longitude: None,
        }
    }

    /// The EXIF data the entries hold.
    pub fn from_entries(entries: &Vec<ExifEntry>) -> (r: Exif)
        ensures
            exif_of(r, entry_views(entries@)),
    {
        let date_taken = match date_entry(entries, TAG_DATE_TIME_ORIGINAL) {
            Some(d) => Some(d),
            None => match date_entry(entries, TAG_DATE_TIME) {
                Some(d) => Some(d),
                None => date_entry(entries, TAG_DATE_TIME_DIGITIZED),
            },
        };
        Exif {
            manufactorer: text_entry(entries, TAG_MAKE),
            model: text_entry(entries, TAG_MODEL),
            aperture: text_entry(entries, TAG_F_NUMBER),
            exposure_time: remove_spaces(&text_entry(entries, TAG_EXPOSURE_TIME)),
            iso: number_entry(entries, TAG_ISO_SPEED_RATINGS),
            focal_length: number_entry(entries, TAG_FOCAL_LENGTH),
            focal_length_35mm_equiv: number_entry(entries, TAG_FOCAL_LENGTH_IN_35MM_FILM),
            orientation: number_entry(entries, TAG_ORIENTATION),
            date_taken,
            gps_latitude: coordinate_entry(entries, TAG_GPS_LATITUDE),
            gps_longitude: coordinate_entry(entries, TAG_GPS_LONGITUDE),
        }
    }

    /// Parses the EXIF data of a photo's bytes (a JPEG or TIFF file): what its
    /// entries hold. An image without EXIF data, or of a kind that holds none,
    /// gives empty data; broken data fails with [`Error::InvalidExif`].
    #[verifier::spinoff_prover]
    pub fn parse_from_photo_bytes(photo_bytes: &[u8]) -> (r: Result<Exif, Error>)
        ensures
            exif_parse(photo_bytes@) matches ExifParseView::Parsed(entries) ==> (r matches Ok(x) && exif_of(x, entries)),
            no_exif(exif_parse(photo_bytes@)) ==> (r matches Ok(x) && exif_of(x, Seq::<ExifEntryView>::empty())),
            exif_parse(photo_bytes@) is Failed ==> r == Err::<Exif, Error>(Error::InvalidExif),
    {
        match parse_exif_buffer(photo_bytes) {
            Ok(data) => {
                let ghost all = exif_data_entries(data);
                let n = exif_entry_count(&data);
                let mut entries: Vec<ExifEntry> = Vec::new();
                let mut i: usize = 0;
                while i < n
                    invariant
                        i <= n,
                        n == all.len(),
                        all == exif_data_entries(data),
                        entry_views(entries@) == all.take(i as int),
                    decreases n - i,
                {
                    match exif_entry(&data, i) {
                        Some(e) => {
                            let ghost prev = entries@;
                            entries.push(e);
                            proof {
                                assert(entry_views(entries@) =~= entry_views(prev).push(e@));
                                assert(all.take(i + 1) =~= all.take(i as int).push(all[i as int]));
                            }
                        },
                        None => {},
                    }
                    i = i + 1;
                }
                proof {
                    assert(all.take(n as int) =~= all);
                }
                Ok(Exif::from_entries(&entries))
            },
            Err(ExifFailure::Failed(_)) => Err(Error::InvalidExif),
            Err(_) => {
                let empty = Exif::empty();
                proof {
                    let none = Seq::<ExifEntryView>::empty();
                    assert(exif_of(empty, none));
                }
                Ok(empty)
            },
        }
    }
}

/// The orientation to turn an image by: its EXIF orientation, 1 where it
/// has none, cut to a byte.
pub fn image_orientation(exif: &Option<Exif>) -> (r: u8)
    ensures
        r == (match *exif {
            Some(e) => match e.orientation {
                Some(o) => o as u8,
                None => 1u8,
            },
            None => 1u8,
        }),
{
    match exif {
        Some(e) => match e.orientation {
            Some(o) => #[verifier::truncate] (o as u8),
            None => 1,
        },
        None => 1,
    }
}

} // verus!
