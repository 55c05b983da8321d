//! The three stored variants of a photo and the ids of their files.

use vstd::prelude::*;
use vstd::string::*;
use crate::text::string_views;

verus! {

broadcast use vstd::seq_lib::group_seq_properties;

/// A stored variant of a photo.
#[derive(Debug, Clone, Copy, PartialEq, Eq, Structural)]
pub enum PhotoVariant {
    Thumbnail,
    Preview,
    Original,
}

/// The name of a variant, as it stands in file ids.
pub open spec fn variant_name(variant: PhotoVariant) -> Seq<char> {
    match variant {
        PhotoVariant::Thumbnail => "thumbnail"@,
        PhotoVariant::Preview => "preview"@,
        PhotoVariant::Original => "original"@,
    }
}

/// The id of the file holding a variant of a photo: the photo's id, a hyphen
/// and the variant's name.
pub open spec fn file_id_of(photo_id: Seq<char>, variant: PhotoVariant) -> Seq<char> {
    photo_id + "-"@ + variant_name(variant)
}

/// The ids of the files of the given photos: for each photo, its thumbnail,
/// preview and original, in that order.
pub open spec fn file_ids_of(photo_ids: Seq<Seq<char>>) -> Seq<Seq<char>>
    decreases photo_ids.len(),
{
    if photo_ids.len() == 0 {
        Seq::empty()
    } else {
        let id = photo_ids.last();
        file_ids_of(photo_ids.drop_last())
            + seq![
                file_id_of(id, PhotoVariant::Thumbnail),
                file_id_of(id, PhotoVariant::Preview),
                file_id_of(id, PhotoVariant::Original),
            ]
    }
}

impl PhotoVariant {
    /// The variant's name.
    pub fn name(&self) -> (r: &'static str)
        ensures
            r@ == variant_name(*self),
    {
        match self {
            PhotoVariant::Thumbnail => "thumbnail",
            PhotoVariant::Preview => "preview",
            PhotoVariant::Original => "original",
        }
    }
}

/// The id of the file holding a variant of a photo.
pub fn file_id(photo_id: &str, variant: PhotoVariant) -> (r: String)
    ensures
        r@ == file_id_of(photo_id@, variant),
{
    let mut r = String::from_str(photo_id);
    r.append("-");
    r.append(variant.name());
    r
}

/// The ids of the files of the given photos.
pub fn file_ids(photo_ids: &[String]) -> (r: Vec<String>)
    ensures
        string_views(r@) == file_ids_of(string_views(photo_ids@)),
{
    let ghost ids = string_views(photo_ids@);
    let mut r: Vec<String> = Vec::new();
    let mut i: usize = 0;
    while i < photo_ids.len()
        invariant
            i <= photo_ids@.len(),
            ids == string_views(photo_ids@),
            string_views(r@) == file_ids_of(ids.take(i as int)),
        decreases photo_ids@.len() - i,
    {
        let id = photo_ids[i].as_str();
        let ghost prev = r@;
        let thumbnail = file_id(id, PhotoVariant::Thumbnail);
        let preview = file_id(id, PhotoVariant::Preview);
        let original = file_id(id, PhotoVariant::Original);
        r.push(thumbnail);
        r.push(preview);
        r.push(original);
        proof {
            assert(ids.take(i + 1).drop_last() =~= ids.take(i as int));
            assert(ids.take(i + 1).last() == id@);
            assert(string_views(r@) =~= string_views(prev) + seq![thumbnail@, preview@, original@]);
        }
        i = i + 1;
    }
    proof {
        assert(ids.take(photo_ids@.len() as int) =~= ids);
    }
    r
}

/// The files of photos are those of each of them: every variant of every
/// photo is among them.
pub proof fn lemma_file_ids_cover(photo_ids: Seq<Seq<char>>, i: int, variant: PhotoVariant)
    requires
        0 <= i < photo_ids.len(),
    ensures
        file_ids_of(photo_ids).contains(file_id_of(photo_ids[i], variant)),
    decreases photo_ids.len(),
{
    let rest = photo_ids.drop_last();
    let prev = file_ids_of(rest);
    let id = photo_ids.last();
    let all = prev + seq![
        file_id_of(id, PhotoVariant::Thumbnail),
        file_id_of(id, PhotoVariant::Preview),
        file_id_of(id, PhotoVariant::Original),
    ];
    if i == photo_ids.len() - 1 {
        let k: int = match variant {
            PhotoVariant::Thumbnail => 0,
            PhotoVariant::Preview => 1,
            PhotoVariant::Original => 2,
        };
        assert(all[prev.len() + k] == file_id_of(id, variant));
    } else {
        lemma_file_ids_cover(rest, i, variant);
        assert(rest[i] == photo_ids[i]);
        let b = choose|b: int| 0 <= b < prev.len() && prev[b] == file_id_of(photo_ids[i], variant);
        assert(all[b] == file_id_of(photo_ids[i], variant));
    }
}

} // verus!
