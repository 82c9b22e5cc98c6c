//! Lexical path handling: absolute paths and relative paths between them.
//! Paths are held as strings in the platform's `/`-separated form.
use vstd::prelude::*;
use vstd::string::*;

verus! {

/// A path is absolute when it starts at the root.
pub open spec fn is_abs(p: Seq<char>) -> bool {
    p.len() > 0 && p[0] == '/'
}

/// `base` with `p` appended, with one separator between them where `base`
/// is non-empty and does not already end in one.
pub open spec fn join_of(base: Seq<char>, p: Seq<char>) -> Seq<char> {
    if base.len() > 0 && base.last() != '/' {
        base + seq!['/'] + p
    } else {
        base + p
    }
}

/// What `path_clean::clean` makes of a path.
pub uninterp spec fn clean_of(p: Seq<char>) -> Seq<char>;

/// What `pathdiff::diff_paths` makes of a path and a base.
pub uninterp spec fn diff_of(path: Seq<char>, base: Seq<char>) -> Option<Seq<char>>;

/// The path that `get_absolute_path` returns.
pub open spec fn absolute_of(path: Seq<char>, cur_dir: Seq<char>) -> Seq<char> {
    if is_abs(path) {
        clean_of(path)
    } else {
        clean_of(join_of(cur_dir, path))
    }
}

/// The path that `normalize_path` returns.
pub open spec fn relative_of(path: Seq<char>, base: Seq<char>) -> Seq<char> {
    match diff_of(path, base) {
        Some(d) => d,
        None => path,
    }
}

/// Relies on `path_clean::clean`: a lexical function of the path; its result
/// is never empty (an empty outcome becomes `.`), and a leading root
/// component is never removed.
#[verifier::external_body]
fn clean(p: &str) -> (r: String)
    ensures
        r@ == clean_of(p@),
        r@.len() > 0,
        is_abs(p@) ==> is_abs(r@),
{
    path_clean::clean(p).to_string_lossy().into_owned()
}

/// Relies on `pathdiff::diff_paths`: a lexical function of its two paths;
/// two equal absolute paths differ by the empty path.
#[verifier::external_body]
fn diff_paths(path: &str, base: &str) -> (r: Option<String>)
    ensures
        r is Some ==> diff_of(path@, base@) == Some(r->0@),
        r is None ==> diff_of(path@, base@) is None,
        path@ == base@ && is_abs(path@) ==> r is Some && r->0@.len() == 0,
{
    pathdiff::diff_paths(path, base).map(|d| d.to_string_lossy().into_owned())
}

/// Whether `p` starts at the root.
pub fn is_absolute(p: &str) -> (r: bool)
    ensures
        r == is_abs(p@),
{
    p.unicode_len() > 0 && p.get_char(0) == '/'
}

/// `base` with the relative path `p` appended.
pub fn join(base: &str, p: &str) -> (r: String)
    ensures
        r@ == join_of(base@, p@),
{
    let n = base.unicode_len();
    let mut out = String::from_str(base);
    if n > 0 && base.get_char(n - 1) != '/' {
        out.append("/");
        proof {
            reveal_strlit("/");
        }
    }
    out.append(p);
    out
}

/// The absolute, lexically cleaned form of `path`: `path` itself where it is
/// absolute, else `path` joined onto `cur_dir`. Nothing on disk is consulted.
pub fn get_absolute_path(path: &str, cur_dir: &str) -> (r: String)
    ensures
        r@ == absolute_of(path@, cur_dir@),
        r@.len() > 0,
        is_abs(path@) || is_abs(cur_dir@) ==> is_abs(r@),
{
    if is_absolute(path) {
        clean(path)
    } else {
        let j = join(cur_dir, path);
        clean(&j)
    }
}

/// The lexical path from the absolute path `new_base` to the absolute path
/// `path`; `path` itself where there is none.
pub fn normalize_path(path: &str, new_base: &str) -> (r: String)
    requires
        is_abs(path@),
        is_abs(new_base@),
    ensures
        r@ == relative_of(path@, new_base@),
        path@ == new_base@ ==> r@.len() == 0,
{
    match diff_paths(path, new_base) {
        Some(d) => d,
        None => String::from_str(path),
    }
}

} // verus!
