//! Static assets: which tree a URL prefix maps to, which paths may reach the
//! disk, and what content type each shipped extension is served as.

pub mod range;

use vstd::prelude::*;

use crate::text::{chars_of, rsplit_once, rsplit_once_at, same_chars, split, split_on, strip_all_leading, strip_leading, string_of};

verus! {

/// Which asset tree — and which on-disk directory — a URL prefix maps to.
#[derive(Clone, Copy, Debug, PartialEq, Eq, Structural)]
pub enum Tree {
    Static,
    Starscape,
    Member,
    Org,
    Platform,
}

pub open spec fn disk_of(tree: Tree, static_dir: Seq<char>) -> Seq<char> {
    match tree {
        Tree::Static => static_dir,
        Tree::Starscape => "crates/starscape/dist"@,
        Tree::Member => "crates/app-member/dist"@,
        Tree::Org => "crates/app-org/dist"@,
        Tree::Platform => "crates/app-platform/dist"@,
    }
}

impl Tree {
    /// Where the tree lives on disk. Bundle output is relative to the
    /// workspace root; the as-is tree is the configured `static_dir`.
    pub fn on_disk(self, static_dir: &str) -> (r: String)
        ensures
            r@ == disk_of(self, static_dir@),
    {
        match self {
            Tree::Static => String::from_str(static_dir),
            Tree::Starscape => String::from_str("crates/starscape/dist"),
            Tree::Member => String::from_str("crates/app-member/dist"),
            Tree::Org => String::from_str("crates/app-org/dist"),
            Tree::Platform => String::from_str("crates/app-platform/dist"),
        }
    }
}

/// Whether a relative path is plain: as `Path::components` reads it, every
/// component is a normal name — no `..` anywhere, and no leading `.`
/// (interior `.` segments and empty segments are not components at all).
pub open spec fn plain(p: Seq<char>) -> bool {
    let segments = split(p, '/');
    &&& segments[0] != "."@
    &&& forall|i: int| 0 <= i < segments.len() ==> segments[i] != ".."@
}

/// What [`sanitize`] admits: the path without its leading slashes, when
/// that is not empty and is plain.
pub open spec fn admitted(path: Seq<char>) -> Option<Seq<char>> {
    let p = strip_all_leading(path, '/');
    if p.len() > 0 && plain(p) { Some(p) } else { None }
}

/// Reject anything that is not a plain relative path. The disk arm joins
/// onto a configured directory and deserves its own guard.
pub fn sanitize(path: &str) -> (r: Option<String>)
    ensures
        match r {
            Some(s) => admitted(path@) == Some(s@),
            None => admitted(path@) is None,
        },
{
    let c = chars_of(path);
    let p = strip_leading(&c, '/');
    if p.len() == 0 {
        return None;
    }
    let segments = split_on(&p, '/');
    let dot = chars_of(".");
    let dotdot = chars_of("..");
    proof { crate::text::lemma_split_nonempty(p@, '/'); }
    if same_chars(&segments[0], &dot) {
        return None;
    }
    let mut i: usize = 0;
    while i < segments.len()
        invariant
            i <= segments@.len(),
            segments@.len() == split(p@, '/').len(),
            forall|k: int| 0 <= k < segments@.len() ==> #[trigger] segments@[k]@ == split(p@, '/')[k],
            dotdot@ == ".."@,
            p@ == strip_all_leading(path@, '/'),
            p@.len() > 0,
            split(p@, '/')[0] != "."@,
            forall|k: int| 0 <= k < i ==> split(p@, '/')[k] != ".."@,
        decreases segments@.len() - i,
    {
        if same_chars(&segments[i], &dotdot) {
            return None;
        }
        i = i + 1;
    }
    let s = string_of(&p, 0, p.len());
    assert(p@.subrange(0, p@.len() as int) =~= p@);
    Some(s)
}

/// The content type for an extension this site ships.
pub open spec fn type_of_ext(ext: Seq<char>) -> &'static str {
    if ext == "html"@ { "text/html; charset=utf-8" }
    else if ext == "css"@ { "text/css; charset=utf-8" }
    else if ext == "js"@ || ext == "mjs"@ { "text/javascript; charset=utf-8" }
    else if ext == "wasm"@ { "application/wasm" }
    else if ext == "json"@ { "application/json" }
    else if ext == "svg"@ { "image/svg+xml" }
    else if ext == "webp"@ { "image/webp" }
    else if ext == "png"@ { "image/png" }
    else if ext == "jpg"@ || ext == "jpeg"@ { "image/jpeg" }
    else if ext == "ico"@ { "image/x-icon" }
    else if ext == "ttf"@ { "font/ttf" }
    else if ext == "woff2"@ { "font/woff2" }
    else if ext == "txt"@ { "text/plain; charset=utf-8" }
    else { "application/octet-stream" }
}

/// A path's content type, by what follows its last `.`; a path with no `.`
/// is `application/octet-stream`.
pub open spec fn type_of_path(path: Seq<char>) -> &'static str {
    match rsplit_once(path, '.') {
        Some(parts) => type_of_ext(parts.1),
        None => "application/octet-stream",
    }
}

fn ext_is(ext: &[char], name: &str) -> (r: bool)
    ensures
        r == (ext@ == name@),
{
    let n = chars_of(name);
    same_chars(ext, &n)
}

/// Content types for what this site actually ships. An unknown extension is
/// never guessed into a text type.
pub fn content_type(path: &str) -> (r: &'static str)
    ensures
        r == type_of_path(path@),
{
    let c = chars_of(path);
    match rsplit_once_at(&c, '.') {
        Some((_, ext)) => {
            if ext_is(&ext, "html") { "text/html; charset=utf-8" }
            else if ext_is(&ext, "css") { "text/css; charset=utf-8" }
            else if ext_is(&ext, "js") || ext_is(&ext, "mjs") { "text/javascript; charset=utf-8" }
            else if ext_is(&ext, "wasm") { "application/wasm" }
            else if ext_is(&ext, "json") { "application/json" }
            else if ext_is(&ext, "svg") { "image/svg+xml" }
            else if ext_is(&ext, "webp") { "image/webp" }
            else if ext_is(&ext, "png") { "image/png" }
            else if ext_is(&ext, "jpg") || ext_is(&ext, "jpeg") { "image/jpeg" }
            else if ext_is(&ext, "ico") { "image/x-icon" }
            else if ext_is(&ext, "ttf") { "font/ttf" }
            else if ext_is(&ext, "woff2") { "font/woff2" }
            else if ext_is(&ext, "txt") { "text/plain; charset=utf-8" }
            else { "application/octet-stream" }
        },
        None => "application/octet-stream",
    }
}

/// No path that leaves the tree or names it from the root is admitted: what
/// is admitted does not start with `/` and has no `..` component.
pub proof fn lemma_admitted_stays_inside(path: Seq<char>)
    ensures
        admitted(path) matches Some(p) ==> {
            &&& p.len() > 0
            &&& p[0] != '/'
            &&& forall|i: int| 0 <= i < split(p, '/').len() ==> split(p, '/')[i] != ".."@
        },
{
    lemma_strip_leading_first(path, '/');
}

/// What [`strip_all_leading`] leaves does not start with the stripped
/// character.
pub proof fn lemma_strip_leading_first(s: Seq<char>, c: char)
    ensures
        strip_all_leading(s, c).len() > 0 ==> strip_all_leading(s, c)[0] != c,
    decreases s.len(),
{
    if s.len() > 0 && s[0] == c {
        lemma_strip_leading_first(s.drop_first(), c);
    }
}

} // verus!
