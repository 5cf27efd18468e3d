//! Where a project's database lives: the data directory, the project root,
//! and the file name derived from the root's path.
use vstd::prelude::*;
use vstd::string::StrSliceExecFns;
use crate::text::{hex_digit, owned, push_char};

verus! {

/// The files whose presence marks a project root, in the order they are
/// looked for.
pub fn project_markers() -> (r: Vec<&'static str>)
    ensures
        r@.len() == 8,
            r@[0]@ == ".git"@,
            r@[1]@ == "Cargo.toml"@,
            r@[2]@ == "package.json"@,
            r@[3]@ == "go.mod"@,
            r@[4]@ == "pom.xml"@,
            r@[5]@ == "build.gradle"@,
            r@[6]@ == "pyproject.toml"@,
            r@[7]@ == "composer.json"@,
{
    vec![
        ".git",
        "Cargo.toml",
        "package.json",
        "go.mod",
        "pom.xml",
        "build.gradle",
        "pyproject.toml",
        "composer.json",
    ]
}

/// Names longer than this are replaced by a hash.
pub const MAX_NAME_LEN: usize = 100;

/// The code point of a character, lowercased when it is an ASCII capital.
pub open spec fn lower_code(c: u32) -> u32 {
    if 65 <= c <= 90 { (c + 32) as u32 } else { c }
}

/// A character with ASCII capitals made small; every other character is kept.
fn ascii_lowercase(c: char) -> (r: char)
    ensures
        r as u32 == lower_code(c as u32),
{
    match c {
        'A' => 'a',
        'B' => 'b',
        'C' => 'c',
        'D' => 'd',
        'E' => 'e',
        'F' => 'f',
        'G' => 'g',
        'H' => 'h',
        'I' => 'i',
        'J' => 'j',
        'K' => 'k',
        'L' => 'l',
        'M' => 'm',
        'N' => 'n',
        'O' => 'o',
        'P' => 'p',
        'Q' => 'q',
        'R' => 'r',
        'S' => 's',
        'T' => 't',
        'U' => 'u',
        'V' => 'v',
        'W' => 'w',
        'X' => 'x',
        'Y' => 'y',
        'Z' => 'z',
        _ => c,
    }
}

/// The hash of a path string under the standard library's default hasher.
pub uninterp spec fn path_hash(path: Seq<char>) -> u64;

/// Relies on `DefaultHasher::new` with `Hash for str` and `Hasher::finish`:
/// the hasher is built with fixed keys, so its result is a function of the
/// characters alone.
#[verifier::external_body]
fn hash_path(path: &str) -> (r: u64)
    ensures
        r == path_hash(path@),
{
    let mut hasher = std::collections::hash_map::DefaultHasher::new();
    std::hash::Hash::hash(path, &mut hasher);
    std::hash::Hasher::finish(&hasher)
}

/// Path separators, drive colons and spaces become underscores.
pub open spec fn is_separator(c: char) -> bool {
    c == '/' || c == '\\' || c == ':' || c == ' '
}

/// A character as it stands in a database name: separators replaced by `_`
/// and ASCII capitals lowercased.
pub open spec fn name_char(c: char, out: char) -> bool {
    if is_separator(c) { out == '_' } else { out as u32 == lower_code(c as u32) }
}

/// The first position at or after `i` that holds no underscore.
pub open spec fn first_kept(s: Seq<char>, i: int) -> int
    decreases s.len() - i,
{
    if i >= s.len() || i < 0 || s[i] != '_' {
        i
    } else {
        first_kept(s, i + 1)
    }
}

/// The end of `s` once trailing underscores after `lo` are dropped.
pub open spec fn last_kept(s: Seq<char>, lo: int, j: int) -> int
    decreases j - lo,
{
    if j <= lo || s[j - 1] != '_' {
        j
    } else {
        last_kept(s, lo, j - 1)
    }
}

/// `s` without leading and trailing underscores.
pub open spec fn trim_underscores(s: Seq<char>) -> Seq<char> {
    let a = first_kept(s, 0);
    s.subrange(a, last_kept(s, a, s.len() as int))
}

/// The lowercase hexadecimal digits of a number, without leading zeros.
pub open spec fn hex_number(n: nat) -> Seq<char>
    decreases n,
{
    if n < 16 {
        seq![hex_digit(n as int)]
    } else {
        hex_number(n / 16).push(hex_digit((n % 16) as int))
    }
}

/// The database name of a project path: the sanitised path when it is at
/// most 100 characters and not empty, `project_<hash>` when longer, and
/// `default` when nothing is left.
pub open spec fn db_name(path: Seq<char>, sanitized: Seq<char>) -> Seq<char> {
    let t = trim_underscores(sanitized);
    if t.len() > 100 {
        "project_"@ + hex_number(path_hash(path) as nat)
    } else if t.len() == 0 {
        "default"@
    } else {
        t
    }
}

/// `sanitized` maps each character of `path` by `name_char`.
pub open spec fn sanitizes(path: Seq<char>, sanitized: Seq<char>) -> bool {
    &&& sanitized.len() == path.len()
    &&& forall|i: int| 0 <= i < path.len() ==> name_char(#[trigger] path[i], sanitized[i])
}

fn push_hex(s: &mut String, n: u64)
    ensures
        final(s)@ == old(s)@ + hex_number(n as nat),
    decreases n,
{
    if n >= 16 {
        push_hex(s, n / 16);
    }
    let d = (n % 16) as u8;
    let c = match d {
        0 => '0',
        1 => '1',
        2 => '2',
        3 => '3',
        4 => '4',
        5 => '5',
        6 => '6',
        7 => '7',
        8 => '8',
        9 => '9',
        10 => 'a',
        11 => 'b',
        12 => 'c',
        13 => 'd',
        14 => 'e',
        _ => 'f',
    };
    push_char(s, c);
    assert(final(s)@ =~= old(s)@ + hex_number(n as nat));
}

/// Turns a project path into a database name.
pub fn project_path_to_db_name(project_path: &str) -> (r: String)
    ensures
        exists|sanitized: Seq<char>| sanitizes(project_path@, sanitized) && r@ == db_name(project_path@, sanitized),
{
    let n = project_path.unicode_len();
    let mut mapped = String::new();
    let mut i: usize = 0;
    while i < n
        invariant
            n == project_path@.len(),
            i <= n,
            mapped@.len() == i,
            forall|k: int| 0 <= k < i ==> name_char(#[trigger] project_path@[k], mapped@[k]),
        decreases n - i,
    {
        let c = project_path.get_char(i);
        let out = if c == '/' || c == '\\' || c == ':' || c == ' ' {
            '_'
        } else {
            ascii_lowercase(c)
        };
        push_char(&mut mapped, out);
        i = i + 1;
    }
    let ghost s = mapped@;
    let m = mapped.as_str();
    let mut a: usize = 0;
    while a < n && m.get_char(a) == '_'
        invariant
            n == s.len(),
            m@ == s,
            a <= n,
            first_kept(s, a as int) == first_kept(s, 0),
        decreases n - a,
    {
        a = a + 1;
    }
    let mut b: usize = n;
    while b > a && m.get_char(b - 1) == '_'
        invariant
            n == s.len(),
            m@ == s,
            a <= b <= n,
            first_kept(s, 0) == a,
            last_kept(s, a as int, b as int) == last_kept(s, a as int, n as int),
        decreases b - a,
    {
        b = b - 1;
    }
    assert(trim_underscores(s) == s.subrange(a as int, b as int));
    proof {
        assert(sanitizes(project_path@, s));
    }
    if b - a > MAX_NAME_LEN {
        let mut out = owned("project_");
        push_hex(&mut out, hash_path(project_path));
        out
    } else if b == a {
        owned("default")
    } else {
        let mut out = String::new();
        let mut k: usize = a;
        while k < b
            invariant
                m@ == s,
                a <= k <= b <= s.len(),
                out@ == s.subrange(a as int, k as int),
            decreases b - k,
        {
            push_char(&mut out, m.get_char(k));
            assert(out@ =~= s.subrange(a as int, k + 1));
            k = k + 1;
        }
        out
    }
}

/// Joins a directory and a file name with `/`.
pub fn join_path(dir: &str, name: &str) -> (r: String)
    ensures
        r@ == dir@ + "/"@ + name@,
{
    let mut out = owned(dir);
    out.append("/");
    out.append(name);
    out
}

/// The database file of a project: `<data_dir>/<name>.db`.
pub fn get_project_db_path(data_dir: &str, project_root: &str) -> (r: String)
    ensures
        exists|sanitized: Seq<char>| sanitizes(project_root@, sanitized) && r@ == data_dir@ + "/"@
            + db_name(project_root@, sanitized) + ".db"@,
{
    let name = project_path_to_db_name(project_root);
    let mut file = owned(name.as_str());
    file.append(".db");
    join_path(data_dir, file.as_str())
}

/// The shared default database file: `<data_dir>/default.db`.
pub fn get_default_db_path(data_dir: &str) -> (r: String)
    ensures
        r@ == data_dir@ + "/"@ + "default.db"@,
{
    join_path(data_dir, "default.db")
}

/// The data directory on Unix: `$XDG_DATA_HOME/glint`, else
/// `$HOME/.local/share/glint`, else `./.local/share/glint`.
pub fn unix_data_dir(xdg_data_home: Option<&str>, home: Option<&str>) -> (r: String)
    ensures
        r@ == match xdg_data_home {
            Some(x) => x@ + "/"@ + "glint"@,
            None => match home {
                Some(h) => h@ + "/"@ + ".local/share"@ + "/"@ + "glint"@,
                None => "."@ + "/"@ + ".local/share"@ + "/"@ + "glint"@,
            },
        },
{
    match xdg_data_home {
        Some(x) => join_path(x, "glint"),
        None => {
            let base = match home {
                Some(h) => join_path(h, ".local/share"),
                None => join_path(".", ".local/share"),
            };
            join_path(base.as_str(), "glint")
        },
    }
}

/// The data directory on Windows: `%LOCALAPPDATA%/glint`, else
/// `%APPDATA%/glint`, else `./glint`.
pub fn windows_data_dir(local_app_data: Option<&str>, app_data: Option<&str>) -> (r: String)
    ensures
        r@ == match local_app_data {
            Some(l) => l@,
            None => match app_data {
                Some(a) => a@,
                None => "."@,
            },
        } + "/"@ + "glint"@,
{
    match local_app_data {
        Some(l) => join_path(l, "glint"),
        None => match app_data {
            Some(a) => join_path(a, "glint"),
            None => join_path(".", "glint"),
        },
    }
}

/// The configuration directory on Unix: `$XDG_CONFIG_HOME/glint`, else
/// `$HOME/.config/glint`, else `./.config/glint`.
pub fn unix_config_dir(xdg_config_home: Option<&str>, home: Option<&str>) -> (r: String)
    ensures
        r@ == match xdg_config_home {
            Some(x) => x@ + "/"@ + "glint"@,
            None => match home {
                Some(h) => h@ + "/"@ + ".config"@ + "/"@ + "glint"@,
                None => "."@ + "/"@ + ".config"@ + "/"@ + "glint"@,
            },
        },
{
    match xdg_config_home {
        Some(x) => join_path(x, "glint"),
        None => {
            let base = match home {
                Some(h) => join_path(h, ".config"),
                None => join_path(".", ".config"),
            };
            join_path(base.as_str(), "glint")
        },
    }
}

/// The project root: the first of the candidate directories (the working
/// directory, then each ancestor) that holds a marker, else the working
/// directory.
pub fn choose_project_root(candidates: &Vec<String>, has_marker: &Vec<bool>, current: &str) -> (r: String)
    requires
        candidates@.len() == has_marker@.len(),
    ensures
        (exists|i: int| 0 <= i < has_marker@.len() && has_marker@[i]) ==> exists|i: int|
            0 <= i < has_marker@.len() && has_marker@[i] && r@ == candidates@[i]@ && forall|j: int|
                0 <= j < i ==> !has_marker@[j],
        (forall|i: int| 0 <= i < has_marker@.len() ==> !has_marker@[i]) ==> r@ == current@,
{
    let mut i: usize = 0;
    while i < candidates.len()
        invariant
            candidates@.len() == has_marker@.len(),
            i <= candidates@.len(),
            forall|j: int| 0 <= j < i ==> !has_marker@[j],
        decreases candidates@.len() - i,
    {
        if has_marker[i] {
            return candidates[i].clone();
        }
        i = i + 1;
    }
    owned(current)
}

} // verus!
