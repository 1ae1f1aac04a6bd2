//! Assembly of the records the analysis works on, from the plain values
//! (path, size, dimensions, timestamps) that the caller read off the
//! file system.

use vstd::prelude::*;
use vstd::string::StringExecFns;
use vstd::string::StrSliceExecFns;
use crate::types::Folder;
use crate::types::Photo;
use crate::paths::spec_file_name;
use crate::paths::strip_trailing_seps;
use crate::paths::strip_trailing_index;
use crate::paths::file_name_of;
use crate::naming::new_id;

verus! {

/// The display name of a path: its final component as a path library
/// reports it — trailing separators are skipped first — or a fixed
/// placeholder when the path has no such component (it is empty, all
/// separators, or ends in the parent-directory component).
pub open spec fn spec_display_name(p: Seq<char>) -> Seq<char> {
    let name = spec_file_name(strip_trailing_seps(p));
    if name.len() == 0 || name == ".."@ {
        "Inconnu"@
    } else {
        name
    }
}

pub fn display_name_of(path: &str) -> (name: String)
    ensures
        name@ == spec_display_name(path@),
{
    proof {
        reveal_strlit("..");
    }
    let end = strip_trailing_index(path);
    let stripped = path.substring_char(0, end);
    let name = file_name_of(stripped);
    let len = name.as_str().unicode_len();
    if len == 0 {
        String::from_str("Inconnu")
    } else if len == 2 && name.as_str().get_char(0) == '.' && name.as_str().get_char(1) == '.' {
        proof {
            assert(name@ =~= ".."@);
        }
        String::from_str("Inconnu")
    } else {
        proof {
            assert(name@ != ".."@);
        }
        name
    }
}

/// Builds the immutable record of one discovered file, assigning it a
/// fresh id. Width and height are `0, 0` when the caller could not
/// determine them; the timestamps are whatever the caller read, falling
/// back to the current time when the file system reported none.
pub fn make_photo(
    path: &str,
    size: u64,
    width: u32,
    height: u32,
    created_at: String,
    modified_at: String,
) -> (photo: Photo)
    ensures
        photo.path@ == path@,
        photo.filename@ == spec_display_name(path@),
        photo.size == size,
        photo.width == width,
        photo.height == height,
        photo.created_at == created_at,
        photo.modified_at == modified_at,
        photo.thumbnail_path is None,
        photo.id@.len() == 36,
{
    Photo {
        id: new_id(),
        path: path.to_owned(),
        filename: display_name_of(path),
        size: size,
        width: width,
        height: height,
        created_at: created_at,
        modified_at: modified_at,
        thumbnail_path: None,
    }
}

/// Builds the record of one subfolder, named after its final path
/// component, with the photo count the caller determined.
pub fn make_folder(path: &str, photo_count: u32) -> (folder: Folder)
    ensures
        folder.path@ == path@,
        folder.name@ == spec_display_name(path@),
        folder.photo_count == Some(photo_count),
        !folder.is_excluded,
{
    Folder {
        path: path.to_owned(),
        name: display_name_of(path),
        photo_count: Some(photo_count),
        is_excluded: false,
    }
}

} // verus!
