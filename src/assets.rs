//! Which bundled web asset answers a request path, and its media type.
use vstd::prelude::*;
use vstd::string::StrSliceExecFns;
use crate::span::opt_view;
use crate::text::{owned, push_char, same_text};

verus! {

/// The first position at or after `i` that holds no `/`.
pub open spec fn first_non_slash(s: Seq<char>, i: int) -> int
    decreases s.len() - i,
{
    if i >= s.len() || i < 0 || s[i] != '/' {
        i
    } else {
        first_non_slash(s, i + 1)
    }
}

/// The path without its leading slashes.
pub open spec fn trim_slashes(s: Seq<char>) -> Seq<char> {
    s.subrange(first_non_slash(s, 0), s.len() as int)
}

/// Two dots stand at `i`.
pub open spec fn dots_at(s: Seq<char>, i: int) -> bool {
    s[i] == '.' && s[i + 1] == '.'
}

/// Whether `..` occurs in the text.
pub open spec fn has_parent_ref(s: Seq<char>) -> bool {
    exists|i: int| 0 <= i < s.len() - 1 && #[trigger] dots_at(s, i)
}

/// Whether a `.` occurs in the text.
pub open spec fn has_dot(s: Seq<char>) -> bool {
    exists|i: int| 0 <= i < s.len() && s[i] == '.'
}

/// The asset a trimmed path asks for: `index.html` for the root, and
/// `index.html` inside a directory.
pub open spec fn requested_asset(t: Seq<char>) -> Seq<char> {
    let r = if t.len() == 0 { "index.html"@ } else { t };
    if r.len() > 0 && r.last() == '/' { r + "index.html"@ } else { r }
}

/// Whether the bundle holds an asset under this path.
pub open spec fn bundled(assets: Seq<String>, p: Seq<char>) -> bool {
    exists|i: int| 0 <= i < assets.len() && assets[i]@ == p
}

/// The asset that answers a request path: the requested one when bundled;
/// else, for a path without an extension, the single-page entry
/// `index.html` when bundled; paths with `..` are never served.
pub open spec fn resolved_asset(path: Seq<char>, assets: Seq<String>) -> Option<Seq<char>> {
    let t = trim_slashes(path);
    if has_parent_ref(t) {
        None
    } else {
        let q = requested_asset(t);
        if bundled(assets, "dist/"@ + q) {
            Some(q)
        } else if !has_dot(q) && bundled(assets, "dist/index.html"@) {
            Some("index.html"@)
        } else {
            None
        }
    }
}

proof fn lemma_first_non_slash_bound(s: Seq<char>, i: int, j: int)
    requires
        0 <= i <= j < s.len(),
        s[j] != '/',
    ensures
        i <= first_non_slash(s, i) <= j,
    decreases j - i,
{
    if s[i] == '/' {
        lemma_first_non_slash_bound(s, i + 1, j);
    }
}

/// A request path in which `..` occurs is never served.
pub proof fn lemma_parent_refs_not_served(path: Seq<char>, assets: Seq<String>)
    requires
        has_parent_ref(path),
    ensures
        resolved_asset(path, assets) is None,
{
    let i = choose|i: int| 0 <= i < path.len() - 1 && #[trigger] dots_at(path, i);
    lemma_first_non_slash_bound(path, 0, i);
    let a = first_non_slash(path, 0);
    let t = trim_slashes(path);
    assert(t[i - a] == path[i] && t[i - a + 1] == path[i + 1]);
    assert(dots_at(t, i - a));
}

/// The bundle path of an asset.
pub fn prefix_dist(path: &str) -> (r: String)
    ensures
        r@ == "dist/"@ + path@,
{
    let mut out = owned("dist/");
    out.append(path);
    out
}

fn is_bundled(assets: &Vec<String>, p: &str) -> (r: bool)
    ensures
        r == bundled(assets@, p@),
{
    let mut i: usize = 0;
    while i < assets.len()
        invariant
            i <= assets@.len(),
            forall|j: int| 0 <= j < i ==> assets@[j]@ != p@,
        decreases assets@.len() - i,
    {
        if same_text(assets[i].as_str(), p) {
            return true;
        }
        i = i + 1;
    }
    false
}

fn contains_char(s: &str, c: char) -> (r: bool)
    ensures
        r == exists|i: int| 0 <= i < s@.len() && s@[i] == c,
{
    let n = s.unicode_len();
    let mut i: usize = 0;
    while i < n
        invariant
            n == s@.len(),
            i <= n,
            forall|j: int| 0 <= j < i ==> s@[j] != c,
        decreases n - i,
    {
        if s.get_char(i) == c {
            return true;
        }
        i = i + 1;
    }
    false
}

/// Chooses the bundled asset that answers a request path, given the paths
/// of all bundled assets.
pub fn resolve_asset(path: &str, assets: &Vec<String>) -> (r: Option<String>)
    ensures
        opt_view(r) == resolved_asset(path@, assets@),
{
    let n = path.unicode_len();
    let mut a: usize = 0;
    while a < n && path.get_char(a) == '/'
        invariant
            n == path@.len(),
            a <= n,
            first_non_slash(path@, a as int) == first_non_slash(path@, 0),
        decreases n - a,
    {
        a = a + 1;
    }
    let ghost t = path@.subrange(a as int, n as int);
    assert(t == trim_slashes(path@));
    let mut trimmed = String::new();
    let mut k: usize = a;
    let mut dotdot = false;
    while k < n
        invariant
            n == path@.len(),
            a <= k <= n,
            t == path@.subrange(a as int, n as int),
            trimmed@ == path@.subrange(a as int, k as int),
            dotdot == has_parent_ref(trimmed@),
        decreases n - k,
    {
        let c = path.get_char(k);
        let ghost before = trimmed@;
        if c == '.' && k > a && path.get_char(k - 1) == '.' {
            dotdot = true;
        }
        push_char(&mut trimmed, c);
        assert(trimmed@ =~= path@.subrange(a as int, k + 1));
        proof {
            if !dotdot {
                assert forall|i: int| 0 <= i < trimmed@.len() - 1 implies !#[trigger] dots_at(trimmed@, i) by {
                    if i < before.len() - 1 {
                        assert(!dots_at(before, i));
                        assert(trimmed@[i] == before[i] && trimmed@[i + 1] == before[i + 1]);
                    }
                }
            } else if !has_parent_ref(before) {
                assert(dots_at(trimmed@, trimmed@.len() - 2));
            } else {
                let i = choose|i: int| 0 <= i < before.len() - 1 && #[trigger] dots_at(before, i);
                assert(trimmed@[i] == before[i] && trimmed@[i + 1] == before[i + 1]);
                assert(dots_at(trimmed@, i));
            }
        }
        k = k + 1;
    }
    assert(trimmed@ == t);
    if dotdot {
        return None;
    }
    let mut requested = if n == a {
        owned("index.html")
    } else {
        trimmed
    };
    let len = requested.as_str().unicode_len();
    if len > 0 && requested.as_str().get_char(len - 1) == '/' {
        requested.append("index.html");
    }
    assert(requested@ == requested_asset(t));
    let full = prefix_dist(requested.as_str());
    if is_bundled(assets, full.as_str()) {
        return Some(requested);
    }
    if !contains_char(requested.as_str(), '.') && is_bundled(assets, "dist/index.html") {
        return Some(owned("index.html"));
    }
    None
}

/// The media type guessed from a file name's extension, when one is known.
pub uninterp spec fn mime_of(path: Seq<char>) -> Option<Seq<char>>;

/// Relies on `mime_guess::from_path` and `MimeGuess::first_raw`: the first
/// media type registered for the path's extension.
#[verifier::external_body]
fn guess_mime(path: &str) -> (r: Option<String>)
    ensures
        opt_view(r) == mime_of(path@),
{
    mime_guess::from_path(path).first_raw().map(String::from)
}

/// The media type of an asset: the guessed one, else
/// `application/octet-stream`.
pub fn asset_media_type(asset_path: &str) -> (r: String)
    ensures
        r@ == match mime_of(asset_path@) {
            Some(m) => m,
            None => "application/octet-stream"@,
        },
{
    match guess_mime(asset_path) {
        Some(m) => m,
        None => owned("application/octet-stream"),
    }
}

/// The asset that answers a request path with its media type; none when
/// nothing may be served.
pub fn resolve_response(path: &str, assets: &Vec<String>) -> (r: Option<(String, String)>)
    ensures
        match r {
            Some((p, m)) => resolved_asset(path@, assets@) == Some(p@) && m@ == match mime_of(p@) {
                Some(x) => x,
                None => "application/octet-stream"@,
            },
            None => resolved_asset(path@, assets@) is None,
        },
{
    match resolve_asset(path, assets) {
        Some(p) => {
            let m = asset_media_type(p.as_str());
            Some((p, m))
        },
        None => None,
    }
}

} // verus!
