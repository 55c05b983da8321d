//! Where the local disk provider keeps a stored file.

use vstd::prelude::*;
use vstd::string::*;
use crate::error::Error;
use crate::uploads::text_result;

verus! {

/// Whether a path is absolute: it starts with `/`.
pub open spec fn is_absolute(path: Seq<char>) -> bool {
    path.len() > 0 && path[0] == '/'
}

/// Whether a path ends with `/`.
pub open spec fn ends_with_slash(path: Seq<char>) -> bool {
    path.len() > 0 && path.last() == '/'
}

/// A path joined to a base path, by the rules of Unix paths: an absolute
/// path replaces the base; a relative one follows the base, after a `/`
/// where the base is not empty and does not end with one.
pub open spec fn joined(base: Seq<char>, path: Seq<char>) -> Seq<char> {
    if is_absolute(path) {
        path
    } else if base.len() == 0 || ends_with_slash(base) {
        base + path
    } else {
        base + seq!['/'] + path
    }
}

/// Joins a path to a base path by the rules of Unix paths (see [`joined`]).
pub fn join_path(base: &str, path: &str) -> (r: String)
    ensures
        r@ == joined(base@, path@),
{
    let path_len = path.unicode_len();
    if path_len > 0 && path.get_char(0) == '/' {
        return String::from_str(path);
    }
    let base_len = base.unicode_len();
    let mut r = String::from_str(base);
    if base_len > 0 && base.get_char(base_len - 1) != '/' {
        r.append("/");
        proof {
            reveal_strlit("/");
            assert("/"@ =~= seq!['/']);
        }
    }
    r.append(path);
    r
}

/// The directory photos are stored in: the configured directory where it
/// is absolute, else that directory within the working directory.
pub open spec fn photos_directory(working_dir: Seq<char>, directory_photos: Seq<char>) -> Seq<char> {
    if is_absolute(directory_photos) {
        directory_photos
    } else {
        joined(working_dir, directory_photos)
    }
}

/// What [`LocalDiskStorageProvider::get_absolute_photo_path`] gives: the
/// relative path joined to the photos' directory, where that makes an
/// absolute path; [`Error::InvalidPath`] where the configured directory and
/// the working directory are both relative and the path is too.
pub open spec fn absolute_photo_path(working_dir: Seq<char>, directory_photos: Seq<char>, relative: Seq<char>) -> Result<Seq<char>, Error> {
    let dir = photos_directory(working_dir, directory_photos);
    if is_absolute(dir) || is_absolute(relative) {
        Ok(joined(dir, relative))
    } else {
        Err(Error::InvalidPath)
    }
}

/// Stores files on the local disk.
#[derive(Debug, Clone, Copy, PartialEq, Eq)]
pub struct LocalDiskStorageProvider {}

impl LocalDiskStorageProvider {
    /// The provider.
    pub fn new() -> (r: LocalDiskStorageProvider) {
        LocalDiskStorageProvider {}
    }

    /// The absolute path of a stored photo: its path relative to the photos'
    /// directory joined to that directory, itself taken within the working
    /// directory where it is configured as a relative path. The result starts
    /// with `/` and ends with the relative path. Fails with
    /// [`Error::InvalidPath`] where no absolute path can be formed (the
    /// working directory given is not absolute either).
    pub fn get_absolute_photo_path(working_dir: &str, directory_photos: &str, relative: &str) -> (r: Result<String, Error>)
        ensures
            text_result(r) == absolute_photo_path(working_dir@, directory_photos@, relative@),
            r matches Ok(p) ==> is_absolute(p@) && relative@.is_suffix_of(p@),
    {
        let dir = if directory_photos.unicode_len() > 0 && directory_photos.get_char(0) == '/' {
            String::from_str(directory_photos)
        } else {
            join_path(working_dir, directory_photos)
        };
        let dir_absolute = dir.as_str().unicode_len() > 0 && dir.as_str().get_char(0) == '/';
        let relative_absolute = relative.unicode_len() > 0 && relative.get_char(0) == '/';
        if !(dir_absolute || relative_absolute) {
            return Err(Error::InvalidPath);
        }
        let p = join_path(dir.as_str(), relative);
        proof {
            let d = dir@;
            if !is_absolute(relative@) {
                assert(is_absolute(d));
                if d.len() == 0 || ends_with_slash(d) {
                    assert((d + relative@)[0] == d[0]);
                    assert((d + relative@).subrange((d + relative@).len() - relative@.len(), (d + relative@).len() as int) =~= relative@);
                } else {
                    let s = d + seq!['/'] + relative@;
                    assert(s[0] == d[0]);
                    assert(s.subrange(s.len() - relative@.len(), s.len() as int) =~= relative@);
                }
            } else {
                assert(relative@.subrange(0, relative@.len() as int) =~= relative@);
            }
        }
        Ok(p)
    }
}

} // verus!
