//! Photos as the server stores them: random file names with a checked
//! extension, the MD5 hash that finds copies, and the record of a new photo.

use vstd::prelude::*;
use vstd::string::*;
use crate::error::Error;
use crate::exif::Exif;
use crate::hashing::{compute_md5_hash, md5};
use crate::random::{id, id_with_length, is_alphanumeric_text, ID_LENGTH};
use crate::text::hex_lower;

verus! {

/// Whether a character beyond ASCII is alphabetic or numeric in Unicode's sense.
pub uninterp spec fn unicode_alphanumeric(c: char) -> bool;

/// Whether a character is alphabetic or numeric: among ASCII characters, the
/// letters and the digits; beyond them, as Unicode says.
pub open spec fn alphanumeric_char(c: char) -> bool {
    if (c as u32) < 128 {
        (97 <= (c as u32) <= 122) || (65 <= (c as u32) <= 90) || (48 <= (c as u32) <= 57)
    } else {
        unicode_alphanumeric(c)
    }
}

/// Calls `char::is_alphanumeric`: true exactly for the characters that are
/// alphabetic or numeric in Unicode's sense; among ASCII characters those
/// are the letters and the digits.
#[verifier::external_body]
fn char_is_alphanumeric(c: char) -> (r: bool)
    ensures
        (c as u32) < 128 ==> (r <==> ((97 <= (c as u32) <= 122) || (65 <= (c as u32) <= 90) || (48 <= (c as u32) <= 57))),
        (c as u32) >= 128 ==> r == unicode_alphanumeric(c),
{
    c.is_alphanumeric()
}

/// The number of random characters of a generated file name.
pub const FILENAME_NAME_LENGTH: usize = 20;

/// Whether every character of an extension is alphanumeric or a period.
pub open spec fn extension_chars_valid(extension: Seq<char>) -> bool {
    forall|i: int| 0 <= i < extension.len() ==> alphanumeric_char(#[trigger] extension[i]) || extension[i] == '.'
}

/// The extension a file name gets: none for an empty one; else one of
/// letters, digits and periods, not ending with a period, starting with a
/// period (one is put in front where it is missing).
pub open spec fn checked_extension(extension: Seq<char>) -> Result<Seq<char>, Error> {
    if extension.len() == 0 {
        Ok(extension)
    } else if !extension_chars_valid(extension) {
        Err(Error::InvalidExtension)
    } else if extension.last() == '.' {
        Err(Error::ExtensionEndsWithPeriod)
    } else if extension[0] == '.' {
        Ok(extension)
    } else {
        Ok(seq!['.'] + extension)
    }
}

/// Whether every character of the extension is alphanumeric or a period.
fn extension_valid(extension: &str) -> (r: bool)
    ensures
        r == extension_chars_valid(extension@),
{
    let n = extension.unicode_len();
    let mut i: usize = 0;
    while i < n
        invariant
            n == extension@.len(),
            i <= n,
            forall|j: int| 0 <= j < i ==> alphanumeric_char(#[trigger] extension@[j]) || extension@[j] == '.',
        decreases n - i,
    {
        let c = extension.get_char(i);
        if !(char_is_alphanumeric(c) || c == '.') {
            return false;
        }
        i = i + 1;
    }
    true
}

/// A photo about to be stored: its id, its file names and its MD5 hash.
pub struct NewPhotoFiles {
    pub id: String,
    pub name: String,
    pub thumbnail_file_name: String,
    pub preview_file_name: String,
    pub hash: String,
}

/// A photo as the server stores it.
#[derive(Debug, Clone, PartialEq, Eq)]
pub struct Photo {
    pub id: String,
    pub user_id: i64,
    pub name: String,
    pub width: i32,
    pub height: i32,
    /// When the photo was taken, or else uploaded, in seconds since the epoch.
    pub created_on: i64,
    pub hash: String,
    pub path_thumbnail: String,
    pub path_preview: String,
    pub path_original: String,
    pub exif: Exif,
}

/// A photo's id and dimensions, as clients are sent them.
#[derive(Debug, Clone, PartialEq, Eq)]
pub struct ClientPhoto {
    pub id: String,
    pub width: i32,
    pub height: i32,
}

/// Where the files of a new photo were stored.
#[derive(Debug, Clone, PartialEq, Eq)]
pub struct StoredPaths {
    pub original: String,
    pub thumbnail: String,
    pub preview: String,
}

impl Photo {
    /// A random file name of 20 ASCII letters and digits followed by the
    /// checked extension.
    pub fn generate_filename(extension: &str) -> (r: Result<String, Error>)
        ensures
            match checked_extension(extension@) {
                Ok(ext) => r matches Ok(name) && {
                    &&& name@.len() == FILENAME_NAME_LENGTH + ext.len()
                    &&& name@.skip(FILENAME_NAME_LENGTH as int) == ext
                    &&& is_alphanumeric_text(name@.take(FILENAME_NAME_LENGTH as int))
                },
                Err(e) => r == Err::<String, Error>(e),
            },
    {
        let mut name = id_with_length(FILENAME_NAME_LENGTH);
        let ghost base = name@;
        let n = extension.unicode_len();
        if n == 0 {
            proof {
                assert(name@.skip(FILENAME_NAME_LENGTH as int) =~= extension@);
                assert(name@.take(FILENAME_NAME_LENGTH as int) =~= name@);
            }
            return Ok(name);
        }
        if !extension_valid(extension) {
            return Err(Error::InvalidExtension);
        }
        if extension.get_char(n - 1) == '.' {
            return Err(Error::ExtensionEndsWithPeriod);
        }
        if extension.get_char(0) != '.' {
            name.append(".");
            proof {
                reveal_strlit(".");
            }
        }
        name.append(extension);
        proof {
            assert(name@.take(FILENAME_NAME_LENGTH as int) =~= base);
            match checked_extension(extension@) {
                Ok(ext) => assert(name@.skip(FILENAME_NAME_LENGTH as int) =~= ext),
                Err(_) => {},
            }
        }
        Ok(name)
    }

    /// The MD5 hash of bytes as 32 lower-case hexadecimal characters.
    pub fn compute_md5_hash(bytes: &[u8]) -> (hash: String)
        ensures
            hash@ == hex_lower(md5(bytes@)),
            hash@.len() == 32,
    {
        compute_md5_hash(bytes)
    }

    /// The names of a new photo's files: the original under a random `.jpg`
    /// name, its thumbnail and preview under the same name with `thumb_` and
    /// `preview_` in front; and the MD5 hash of its bytes, to find copies.
    pub fn prepare_files(photo_bytes: &[u8]) -> (r: NewPhotoFiles)
        ensures
            r.id@.len() == ID_LENGTH,
            r.name@.len() == FILENAME_NAME_LENGTH + 4,
            r.name@.skip(FILENAME_NAME_LENGTH as int) == ".jpg"@,
            r.thumbnail_file_name@ == "thumb_"@ + r.name@,
            r.preview_file_name@ == "preview_"@ + r.name@,
            r.hash@ == hex_lower(md5(photo_bytes@)),
    {
        let photo_id = id();
        proof {
            reveal_strlit(".jpg");
        }
        let name = match Photo::generate_filename(".jpg") {
            Ok(name) => name,
            Err(_) => {
                assert(extension_chars_valid(".jpg"@));
                id_with_length(0)
            },
        };
        let mut thumbnail_file_name = String::from_str("thumb_");
        thumbnail_file_name.append(name.as_str());
        let mut preview_file_name = String::from_str("preview_");
        preview_file_name.append(name.as_str());
        NewPhotoFiles { id: photo_id, name, thumbnail_file_name, preview_file_name, hash: Photo::compute_md5_hash(photo_bytes) }
    }

    /// A new photo of a user, from the names prepared for it, whether the
    /// user has a photo with its hash already, its EXIF data, its image's
    /// dimensions, where its files were stored and the time now. It was
    /// created when it was taken, where the EXIF data tells, else now. Fails
    /// with [`Error::PhotoExists`] for a copy of a photo of the user.
    pub fn new(
        user_id: i64,
        files: NewPhotoFiles,
        exists: bool,
        exif: Exif,
        width: u32,
        height: u32,
        paths: StoredPaths,
        now: i64,
    ) -> (r: Result<Photo, Error>)
        ensures
            exists ==> r == Err::<Photo, Error>(Error::PhotoExists),
            !exists ==> (r matches Ok(p) && {
                &&& p.id == files.id
                &&& p.user_id == user_id
                &&& p.name == files.name
                &&& p.hash == files.hash
                &&& p.width == width as i32
                &&& p.height == height as i32
                &&& p.created_on == (match exif.date_taken { Some(t) => t, None => now })
                &&& p.path_original == paths.original
                &&& p.path_thumbnail == paths.thumbnail
                &&& p.path_preview == paths.preview
                &&& p.exif == exif
            }),
    {
        if exists {
            return Err(Error::PhotoExists);
        }
        let created_on = match exif.date_taken {
            Some(t) => t,
            None => now,
        };
        Ok(Photo {
            id: files.id,
            user_id,
            name: files.name,
            width: #[verifier::truncate] (width as i32),
            height: #[verifier::truncate] (height as i32),
            created_on,
            hash: files.hash,
            path_thumbnail: paths.thumbnail,
            path_preview: paths.preview,
            path_original: paths.original,
            exif,
        })
    }

    /// The photo's id and dimensions.
    pub fn to_client_photo(&self) -> (r: ClientPhoto)
        ensures
            r.id@ == self.id@,
            r.width == self.width,
            r.height == self.height,
    {
        ClientPhoto { id: self.id.clone(), width: self.width, height: self.height }
    }

    /// A photo found for a user: refused with [`Error::Unauthorized`] where it
    /// belongs to another user; none where none was found.
    pub fn get_as_user(found: Option<Photo>, user_id: i64) -> (r: Result<Option<Photo>, Error>)
        ensures
            match found {
                Some(p) => if p.user_id != user_id {
                    r == Err::<Option<Photo>, Error>(Error::Unauthorized)
                } else {
                    r == Ok::<Option<Photo>, Error>(Some(p))
                },
                None => r == Ok::<Option<Photo>, Error>(None),
            },
    {
        match found {
            Some(p) => if p.user_id != user_id {
                Err(Error::Unauthorized)
            } else {
                Ok(Some(p))
            },
            None => Ok(None),
        }
    }

    /// Whether the photo can be inserted: it must have an id.
    pub fn check_insertable(&self) -> (r: Result<(), Error>)
        ensures
            r == (if self.id@.len() == 0 { Err(Error::PhotoIdNotSet) } else { Ok(()) }),
    {
        if self.id.as_str().is_empty() {
            Err(Error::PhotoIdNotSet)
        } else {
            Ok(())
        }
    }
}

} // verus!
