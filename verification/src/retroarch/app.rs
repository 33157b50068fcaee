//! Resolving the RetroArch binary to exec from an `.app` bundle path.
use crate::core_path::view_path_result;
use crate::fs::{answered, dir_at, file_at, is_dir, is_file};
use crate::path::{extension, join, path_extension, path_join};
use crate::text::{push_str, str_eq};
use vstd::prelude::*;

verus! {

/// The binary inside a RetroArch `.app` bundle.
pub open spec fn bundle_binary(app: Seq<char>) -> Seq<char> {
    join(app, "Contents/MacOS/RetroArch"@)
}

/// The error for a bundle without its binary.
pub open spec fn no_binary_message(app: Seq<char>) -> Seq<char> {
    app + " has no Contents/MacOS/RetroArch"@
}

/// The error for a path where nothing usable is.
pub open spec fn app_not_found_message(app: Seq<char>) -> Seq<char> {
    "RetroArch app not found at "@ + app
}

/// What [`resolve_binary`] answers once the disk has said whether `app`
/// is a directory, whether the bundle's binary is a file, and whether
/// `app` itself is a file.
pub open spec fn spec_binary(app: Seq<char>, is_dir: bool, inner_is_file: bool, app_is_file: bool) -> Result<
    Seq<char>,
    Seq<char>,
> {
    if extension(app) == Some("app"@) && is_dir {
        if inner_is_file {
            Ok(bundle_binary(app))
        } else {
            Err(no_binary_message(app))
        }
    } else if app_is_file {
        Ok(app)
    } else {
        Err(app_not_found_message(app))
    }
}

/// The binary to exec for `app`, given what the disk said: a directory
/// named `*.app` gives its inner binary when that is a file, and an error
/// when it is not; any other file is the binary itself.
pub fn binary_found(app: &str, is_dir: bool, inner_is_file: bool, app_is_file: bool) -> (r: Result<
    String,
    String,
>)
    ensures
        view_path_result(r) == spec_binary(app@, is_dir, inner_is_file, app_is_file),
{
    let is_app = match path_extension(app) {
        Some(e) => str_eq(e.as_str(), "app"),
        None => false,
    };
    if is_app && is_dir {
        if inner_is_file {
            return Ok(path_join(app, "Contents/MacOS/RetroArch"));
        }
        let mut e = app.to_string();
        push_str(&mut e, " has no Contents/MacOS/RetroArch");
        return Err(e);
    }
    if app_is_file {
        return Ok(app.to_string());
    }
    let mut e = String::new();
    push_str(&mut e, "RetroArch app not found at ");
    push_str(&mut e, app);
    Err(e)
}

/// Whether the disk's answers to [`resolve_binary`]'s questions were
/// `is_dir` for `app` (asked when it is named `*.app`), `inner_is_file`
/// for the bundle's binary (asked when it is such a directory) and
/// `app_is_file` for `app` itself (asked otherwise).
pub open spec fn binary_answers(app: Seq<char>, is_dir: bool, inner_is_file: bool, app_is_file: bool) -> bool {
    let named = extension(app) == Some("app"@);
    &&& (named ==> answered(crate::fs::is_dir, app, is_dir))
    &&& (named && is_dir ==> answered(is_file, bundle_binary(app), inner_is_file))
    &&& (!(named && is_dir) ==> answered(is_file, app, app_is_file))
}

/// Resolve a RetroArch `.app` bundle, or a bare executable, to the binary
/// to exec: a directory named `*.app` gives its inner binary, when that is
/// a file; any other file is the binary itself.
pub fn resolve_binary(app: &str) -> (r: Result<String, String>)
    ensures
        exists|d: bool, i: bool, f: bool|
            #[trigger] binary_answers(app@, d, i, f) && view_path_result(r) == spec_binary(
                app@,
                d,
                i,
                f,
            ),
        match r {
            Ok(b) => (extension(app@) == Some("app"@) && b@ == bundle_binary(app@)) || b@ == app@,
            Err(e) => (extension(app@) == Some("app"@) && e@ == no_binary_message(app@)) || e@
                == app_not_found_message(app@),
        },
{
    let is_app = match path_extension(app) {
        Some(e) => str_eq(e.as_str(), "app"),
        None => false,
    };
    let d = if is_app {
        dir_at(app)
    } else {
        false
    };
    if is_app && d {
        let bin = path_join(app, "Contents/MacOS/RetroArch");
        let inner = file_at(bin.as_str());
        let r = binary_found(app, true, inner, false);
        assert(binary_answers(app@, true, inner, false));
        return r;
    }
    let f = file_at(app);
    let r = binary_found(app, false, false, f);
    assert(binary_answers(app@, false, false, f));
    assert(view_path_result(r) == spec_binary(app@, false, false, f));
    r
}

} // verus!
