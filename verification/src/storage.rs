//! Where the launcher keeps its files, below its data directory.
use vstd::prelude::*;

use crate::text::string_of;

verus! {

use vstd::string::StringExecFns;

/// A path component that names a child of the base: non-empty, neither `.`
/// nor `..`, and without `/`, `\`, `:` or `?`, so no platform reads it as
/// absolute, as a drive or as a step up or sideways.
pub open spec fn plain_component(part: Seq<char>) -> bool {
    &&& part.len() > 0
    &&& !(part.len() == 1 && part[0] == '.')
    &&& !(part.len() == 2 && part[0] == '.' && part[1] == '.')
    &&& forall|i: int|
        0 <= i < part.len() ==> part[i] != '/' && part[i] != '\\' && part[i] != ':' && part[i] != '?'
}

/// A path without `?`: in particular it has no Windows verbatim prefix
/// (`\\?\`), the one kind of base that `Path::join` rewrites rather than
/// extends.
pub open spec fn ordinary(path: Seq<char>) -> bool {
    forall|i: int| 0 <= i < path.len() ==> path[i] != '?'
}

/// A Windows drive with nothing after it, such as `C:`.
pub open spec fn bare_drive(base: Seq<char>) -> bool {
    &&& base.len() == 2
    &&& base[1] == ':'
    &&& ('a' <= base[0] <= 'z' || 'A' <= base[0] <= 'Z')
}

/// `r` is `base` extended by `part` as `Path::join` does on Unix or on
/// Windows. An empty base gives the part itself. A base that already ends in
/// a separator of the platform gets no other (`/` on both, `\` on Windows
/// only; Unix adds `/` after a `\`). A bare Windows drive gets none on
/// Windows and `/` on Unix. Any other base gets the platform's separator:
/// `/` on Unix, `\` on Windows.
pub open spec fn is_join(base: Seq<char>, part: Seq<char>, r: Seq<char>) -> bool {
    if base.len() == 0 {
        r == part
    } else if base.last() == '/' {
        r == base + part
    } else if base.last() == '\\' || bare_drive(base) {
        r == base + part || r == base + seq!['/'] + part
    } else {
        r == base + seq!['/'] + part || r == base + seq!['\\'] + part
    }
}

/// Extending an ordinary base by a plain component gives an ordinary path,
/// so a path built by joins stays one that `Path::join` extends.
pub proof fn lemma_join_ordinary(base: Seq<char>, part: Seq<char>, r: Seq<char>)
    requires
        ordinary(base),
        plain_component(part),
        is_join(base, part, r),
    ensures
        ordinary(r),
{
    assert forall|i: int| 0 <= i < r.len() implies r[i] != '?' by {
        if i < base.len() {
            assert(r[i] == base[i]);
        } else if r.len() == base.len() + part.len() {
            assert(r[i] == part[i - base.len()]);
        } else {
            if i > base.len() {
                assert(r[i] == part[i - base.len() - 1]);
            }
        }
    }
}

/// Calls `Path::join` on the two paths and converts the result back to text
/// with `to_string_lossy`, which loses nothing on text that came from a
/// `&str`. For a plain component and an ordinary base the result is as
/// `is_join` says; on a Windows verbatim base `join` also normalizes the
/// path, so nothing is stated there.
#[verifier::external_body]
pub(crate) fn join_path(base: &str, part: &str) -> (r: String)
    ensures
        plain_component(part@) && ordinary(base@) ==> is_join(base@, part@, r@),
{
    std::path::Path::new(base).join(part).to_string_lossy().into_owned()
}

/// A directory named `.pomc` inside a platform data directory: the text ends
/// in `/.pomc` (Linux and the other Unix systems, macOS), or in
/// `\.pomc\data` (Windows, where the project directory holds `data`).
pub open spec fn pomc_project_dir(s: Seq<char>) -> bool {
    ||| (s.len() >= 6 && s.skip(s.len() - 6) == "/.pomc"@)
    ||| (s.len() >= 11 && s.skip(s.len() - 11) == "\\.pomc\\data"@)
}

/// Calls `directories::ProjectDirs::from("", "", ".pomc")` and, when the
/// platform has a home directory, gives its `data_dir` as text. Per that
/// crate's source the project path is `.pomc` and the data directory is the
/// platform's data location joined with it (and with `data` on Windows), so
/// the text ends as `pomc_project_dir` says; which location it is depends on
/// the machine and is not stated.
#[verifier::external_body]
pub(crate) fn project_data_dir() -> (r: Option<String>)
    ensures
        r matches Some(s) ==> pomc_project_dir(s@),
{
    directories::ProjectDirs::from("", "", ".pomc").map(|d| d.data_dir().to_string_lossy().into_owned())
}

/// The launcher's data directory given what the platform reports: the
/// platform's project data directory, or `.pomc` when there is none.
pub fn data_dir_from(project: Option<String>) -> (r: String)
    ensures
        project matches Some(p) ==> r == p,
        project is None ==> r@ == ".pomc"@,
{
    match project {
        Some(p) => p,
        None => String::from_str(".pomc"),
    }
}

/// The launcher's data directory on this machine: the platform's project
/// data directory, a directory named `.pomc` in the platform's data location,
/// or `.pomc` itself when the platform has none.
pub fn data_dir() -> (r: String)
    ensures
        r@ == ".pomc"@ || pomc_project_dir(r@),
{
    data_dir_from(project_data_dir())
}

fn child(base: &str, part: &str) -> (r: String)
    requires
        plain_component(part@),
    ensures
        ordinary(base@) ==> is_join(base@, part@, r@) && ordinary(r@),
{
    let r = join_path(base, part);
    proof {
        if ordinary(base@) {
            lemma_join_ordinary(base@, part@, r@);
        }
    }
    r
}

/// The downloaded game assets.
pub fn assets_dir(data_dir: &str) -> (r: String)
    ensures
        ordinary(data_dir@) ==> is_join(data_dir@, "assets"@, r@) && ordinary(r@),
{
    proof {
        reveal_strlit("assets");
    }
    child(data_dir, "assets")
}

/// The downloaded game versions.
pub fn versions_dir(data_dir: &str) -> (r: String)
    ensures
        ordinary(data_dir@) ==> is_join(data_dir@, "versions"@, r@) && ordinary(r@),
{
    proof {
        reveal_strlit("versions");
    }
    child(data_dir, "versions")
}

/// The game directories of the installations.
pub fn installations_dir(data_dir: &str) -> (r: String)
    ensures
        ordinary(data_dir@) ==> is_join(data_dir@, "installations"@, r@) && ordinary(r@),
{
    proof {
        reveal_strlit("installations");
    }
    child(data_dir, "installations")
}

/// The asset indexes, inside the assets directory.
pub fn indexes_dir(data_dir: &str) -> (r: String)
    ensures
        ordinary(data_dir@) ==> exists|a: Seq<char>|
            #[trigger] is_join(data_dir@, "assets"@, a) && is_join(a, "indexes"@, r@),
{
    let a = assets_dir(data_dir);
    proof {
        reveal_strlit("indexes");
    }
    let r = child(a.as_str(), "indexes");
    proof {
        if ordinary(data_dir@) {
            assert(is_join(data_dir@, "assets"@, a@) && is_join(a@, "indexes"@, r@));
        }
    }
    r
}

/// The asset objects, inside the assets directory.
pub fn objects_dir(data_dir: &str) -> (r: String)
    ensures
        ordinary(data_dir@) ==> exists|a: Seq<char>|
            #[trigger] is_join(data_dir@, "assets"@, a) && is_join(a, "objects"@, r@),
{
    let a = assets_dir(data_dir);
    proof {
        reveal_strlit("objects");
    }
    let r = child(a.as_str(), "objects");
    proof {
        if ordinary(data_dir@) {
            assert(is_join(data_dir@, "assets"@, a@) && is_join(a@, "objects"@, r@));
        }
    }
    r
}

/// The launcher settings file.
pub fn settings_file(data_dir: &str) -> (r: String)
    ensures
        ordinary(data_dir@) ==> is_join(data_dir@, "settings.json"@, r@) && ordinary(r@),
{
    proof {
        reveal_strlit("settings.json");
    }
    child(data_dir, "settings.json")
}

/// The stored accounts file.
pub fn accounts_file(data_dir: &str) -> (r: String)
    ensures
        ordinary(data_dir@) ==> is_join(data_dir@, "accounts.json"@, r@) && ordinary(r@),
{
    proof {
        reveal_strlit("accounts.json");
    }
    child(data_dir, "accounts.json")
}

/// The installation list file.
pub fn installations_file(data_dir: &str) -> (r: String)
    ensures
        ordinary(data_dir@) ==> is_join(data_dir@, "installations.json"@, r@) && ordinary(r@),
{
    proof {
        reveal_strlit("installations.json");
    }
    child(data_dir, "installations.json")
}

/// The default contents written to a missing data file: `{}` for the
/// settings, `[]` for the account and installation lists.
pub fn default_file_contents(is_settings: bool) -> (r: String)
    ensures
        is_settings ==> r@ == "{}"@,
        !is_settings ==> r@ == "[]"@,
{
    if is_settings {
        String::from_str("{}")
    } else {
        String::from_str("[]")
    }
}

} // verus!
