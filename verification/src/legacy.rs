//! The albums the first version of the server answered with.

use vstd::prelude::*;
use vstd::string::*;

verus! {

/// An album of the first version: a number and a title.
#[derive(Debug, Clone, PartialEq, Eq)]
pub struct Album {
    pub id: u32,
    pub title: String,
}

/// The fixed titles of the first version's albums.
pub open spec fn fixed_titles() -> Seq<Seq<char>> {
    seq!["Boom"@, "Hello world"@]
}

/// The first version's albums: one per fixed title, numbered from 0.
pub fn get_albums() -> (albums: Vec<Album>)
    ensures
        albums@.len() == fixed_titles().len(),
        forall|i: int| 0 <= i < albums@.len() ==> (#[trigger] albums@[i]).id == i && albums@[i].title@ == fixed_titles()[i],
{
    let titles = ["Boom", "Hello world"];
    let mut albums: Vec<Album> = Vec::new();
    let mut id: usize = 0;
    while id < 2
        invariant
            id <= 2,
            titles@ == seq!["Boom", "Hello world"],
            albums@.len() == id,
            forall|i: int| 0 <= i < id ==> (#[trigger] albums@[i]).id == i && albums@[i].title@ == fixed_titles()[i],
        decreases 2 - id,
    {
        let title = titles[id];
        albums.push(Album { id: id as u32, title: String::from_str(title) });
        id = id + 1;
    }
    albums
}

/// The first version's photos, which it answered with albums like
/// [`get_albums`].
pub fn get_photos() -> (albums: Vec<Album>)
    ensures
        albums@.len() == fixed_titles().len(),
        forall|i: int| 0 <= i < albums@.len() ==> (#[trigger] albums@[i]).id == i && albums@[i].title@ == fixed_titles()[i],
{
    get_albums()
}

/// A photo's width or height as the first server's database stores it: a
/// signed 32-bit number (the bits of the unsigned one).
pub fn stored_dimension(size: u32) -> (r: i32)
    ensures
        r == size as i32,
{
    #[verifier::truncate] (size as i32)
}

/// A photo's width or height read back from the first server's database: 0
/// for a negative number.
pub fn dimension_from_stored(stored: i32) -> (r: u32)
    ensures
        r == (if stored < 0 { 0 } else { stored as int }),
{
    if stored < 0 { 0 } else { stored as u32 }
}

/// A width or height that fits a signed 32-bit number is stored and read
/// back unchanged; larger ones are read back as 0.
pub proof fn lemma_dimension_roundtrip(size: u32)
    ensures
        size <= i32::MAX ==> (if (size as i32) < 0 { 0 } else { (size as i32) as int }) == size,
        size > i32::MAX ==> (size as i32) < 0,
{
    assert(size <= 0x7fff_ffff ==> (size as i32) as int == size as int) by (bit_vector);
    assert(size > 0x7fff_ffff ==> (size as i32) < 0) by (bit_vector);
}

} // verus!
