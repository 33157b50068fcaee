//! Checking an `--image` argument before a backend spends anything on it:
//! it must carry an extension the backend's decoder accepts, and exist.
//! Each backend has its own extension list; the check is the same.
use crate::path::{extension, path_extension};
use crate::text::{chars_of, push_str};
use crate::fs::answered;
use vstd::prelude::*;

verus! {

/// `c` with `A`..`Z` mapped to `a`..`z`.
pub open spec fn lower(c: char) -> char {
    if 'A' <= c && c <= 'Z' {
        ((c as u32) + 32) as char
    } else {
        c
    }
}

/// `str::to_ascii_lowercase`.
pub open spec fn ascii_lowercase(s: Seq<char>) -> Seq<char> {
    Seq::new(s.len(), |i: int| lower(s[i]))
}

/// Whether some entry of `list` is `s`.
pub open spec fn listed(list: Seq<&str>, s: Seq<char>) -> bool {
    exists|i: int| 0 <= i < list.len() && list[i]@ == s
}

/// Whether `path` has an extension in `extensions`, case-insensitively.
pub open spec fn spec_has_extension(path: Seq<char>, extensions: Seq<&str>) -> bool {
    match extension(path) {
        Some(x) => listed(extensions, ascii_lowercase(x)),
        None => false,
    }
}

fn lower_char(c: char) -> (r: char)
    ensures
        r == lower(c),
{
    if 'A' <= c && c <= 'Z' {
        ((c as u8) + 32) as char
    } else {
        c
    }
}

pub(crate) fn lowercase(v: &Vec<char>) -> (r: Vec<char>)
    ensures
        r@ == ascii_lowercase(v@),
{
    let mut r: Vec<char> = Vec::new();
    let mut i: usize = 0;
    while i < v.len()
        invariant
            0 <= i <= v@.len(),
            r@ == ascii_lowercase(v@.subrange(0, i as int)),
        decreases v@.len() - i,
    {
        r.push(lower_char(v[i]));
        assert(r@ =~= ascii_lowercase(v@.subrange(0, i + 1)));
        i = i + 1;
    }
    assert(v@.subrange(0, v@.len() as int) =~= v@);
    r
}

/// Whether some entry of `list` holds the characters `v`.
pub fn is_listed(list: &[&str], v: &Vec<char>) -> (b: bool)
    ensures
        b == listed(list@, v@),
{
    let mut i: usize = 0;
    while i < list.len()
        invariant
            0 <= i <= list@.len(),
            forall|k: int| 0 <= k < i ==> list@[k]@ != v@,
        decreases list@.len() - i,
    {
        if crate::text::chars_eq(v, list[i]) {
            return true;
        }
        i = i + 1;
    }
    false
}

/// Whether `path` has an extension in `extensions`, case-insensitively.
pub fn has_extension(path: &str, extensions: &[&str]) -> (b: bool)
    ensures
        b == spec_has_extension(path@, extensions@),
{
    match path_extension(path) {
        Some(x) => is_listed(extensions, &lowercase(&chars_of(x.as_str()))),
        None => false,
    }
}

/// `list` joined with `", "`.
pub open spec fn joined(list: Seq<&str>) -> Seq<char>
    decreases list.len(),
{
    if list.len() == 0 {
        Seq::empty()
    } else if list.len() == 1 {
        list[0]@
    } else {
        joined(list.drop_last()) + ", "@ + list.last()@
    }
}

/// Appends `list` joined with `", "` to `s`.
pub fn push_joined(s: &mut String, list: &[&str])
    ensures
        final(s)@ == old(s)@ + joined(list@),
{
    let mut i: usize = 0;
    while i < list.len()
        invariant
            0 <= i <= list@.len(),
            s@ == old(s)@ + joined(list@.subrange(0, i as int)),
        decreases list@.len() - i,
    {
        let ghost prefix = list@.subrange(0, i + 1);
        assert(prefix.drop_last() =~= list@.subrange(0, i as int));
        if i > 0 {
            push_str(s, ", ");
        }
        push_str(s, list[i]);
        assert(s@ =~= old(s)@ + joined(prefix));
        i = i + 1;
    }
    assert(list@.subrange(0, list@.len() as int) =~= list@);
}

/// The refusal of an image without an accepted extension.
pub open spec fn bad_extension_message(image: Seq<char>, extensions: Seq<&str>, decoder: Seq<
    char,
>) -> Seq<char> {
    image + " does not have an image extension "@ + decoder + " accepts ("@ + joined(extensions)
        + ")"@
}

/// The refusal of an image that is not an existing file.
pub open spec fn not_found_message(image: Seq<char>) -> Seq<char> {
    "image not found at "@ + image
}

/// What [`validate`] answers once the file system has said whether
/// `image` is a file.
pub open spec fn spec_validate(
    image: Seq<char>,
    extensions: Seq<&str>,
    decoder: Seq<char>,
    is_file: bool,
) -> Result<(), Seq<char>> {
    if !spec_has_extension(image, extensions) {
        Err(bad_extension_message(image, extensions, decoder))
    } else if !is_file {
        Err(not_found_message(image))
    } else {
        Ok(())
    }
}

/// The answer with the message taken by its view.
pub open spec fn view_unit_result(r: Result<(), String>) -> Result<(), Seq<char>> {
    match r {
        Ok(()) => Ok(()),
        Err(m) => Err(m@),
    }
}

/// Refuse `image` unless it has one of `extensions` and, as `is_file`
/// reports, is an existing file.
pub fn validate_found(image: &str, extensions: &[&str], decoder: &str, is_file: bool) -> (r:
    Result<(), String>)
    ensures
        view_unit_result(r) == spec_validate(image@, extensions@, decoder@, is_file),
{
    if !has_extension(image, extensions) {
        let mut m = String::new();
        push_str(&mut m, image);
        push_str(&mut m, " does not have an image extension ");
        push_str(&mut m, decoder);
        push_str(&mut m, " accepts (");
        push_joined(&mut m, extensions);
        push_str(&mut m, ")");
        assert(m@ =~= bad_extension_message(image@, extensions@, decoder@));
        return Err(m);
    }
    if !is_file {
        let mut m = String::new();
        push_str(&mut m, "image not found at ");
        push_str(&mut m, image);
        assert(m@ =~= not_found_message(image@));
        return Err(m);
    }
    Ok(())
}

/// Whether the disk answered `is_file` for `image`, which [`validate`]
/// asks only of an image with one of `extensions`.
pub open spec fn image_answer(image: Seq<char>, extensions: Seq<&str>, is_file: bool) -> bool {
    spec_has_extension(image, extensions) ==> answered(crate::fs::is_file, image, is_file)
}

/// Refuse `image` unless it has one of `extensions` and is an existing
/// file. `decoder` names, for the message, what would have decoded it.
pub fn validate(image: &str, extensions: &[&str], decoder: &str) -> (r: Result<(), String>)
    ensures
        exists|is_file: bool|
            #[trigger] image_answer(image@, extensions@, is_file) && view_unit_result(r)
                == spec_validate(image@, extensions@, decoder@, is_file),
{
    let found = if has_extension(image, extensions) {
        crate::fs::file_at(image)
    } else {
        false
    };
    assert(image_answer(image@, extensions@, found));
    validate_found(image, extensions, decoder, found)
}

} // verus!
