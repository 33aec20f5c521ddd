//! Import path resolution and checks.
//!
//! Any readable local location can be imported: absolute paths are used as
//! they are, relative ones are resolved against the working directory, and
//! `~` stands for the home directory.  The file system is probed by the
//! program; the decisions taken on what it found are made here.
use vstd::prelude::*;
use std::path::Path;
use crate::text::{append_chars, chars_eq, chars_of, string_of, trim, trim_chars};

verus! {

/// A resolved import target.
#[derive(Debug, Clone)]
pub struct ImportTarget {
    pub path: String,
    /// File or directory (decides messages; the importer accepts both).
    pub is_file: bool,
}

/// Import path errors, worded for the user.
#[derive(Debug)]
pub enum ImportPathError {
    /// The path does not exist.
    NotFound(String),
    /// Neither a file nor a directory (socket and the like).
    NotFileOrDir(String),
    /// A single file of an unsupported type.
    UnsupportedType(String),
    /// A directory without any supported file.
    EmptyDir(String),
    /// Exists but cannot be accessed (permissions, ...); the reason text.
    Inaccessible(String, String),
}

pub open spec fn error_message(e: ImportPathError) -> Seq<char> {
    match e {
        ImportPathError::NotFound(p) => "File not found: "@ + p@ + "\nCheck the path and try again."@,
        ImportPathError::NotFileOrDir(p) => "Not a file or directory: "@ + p@,
        ImportPathError::UnsupportedType(p) => "Unsupported file type: "@ + p@
            + "\nSupported: md / txt / pdf / pptx"@,
        ImportPathError::EmptyDir(p) => "No supported files found in: "@ + p@
            + "\nSupported: md / txt / pdf / pptx"@,
        ImportPathError::Inaccessible(p, e) => "Could not access: "@ + p@ + "\nReason: "@ + e@,
    }
}

impl ImportPathError {
    /// The text shown to the user.
    pub fn message(&self) -> (r: String)
        ensures
            r@ == error_message(*self),
    {
        match self {
            ImportPathError::NotFound(p) => {
                let mut m = "File not found: ".to_owned();
                m.push_str(p.as_str());
                m.push_str("\nCheck the path and try again.");
                m
            },
            ImportPathError::NotFileOrDir(p) => {
                let mut m = "Not a file or directory: ".to_owned();
                m.push_str(p.as_str());
                m
            },
            ImportPathError::UnsupportedType(p) => {
                let mut m = "Unsupported file type: ".to_owned();
                m.push_str(p.as_str());
                m.push_str("\nSupported: md / txt / pdf / pptx");
                m
            },
            ImportPathError::EmptyDir(p) => {
                let mut m = "No supported files found in: ".to_owned();
                m.push_str(p.as_str());
                m.push_str("\nSupported: md / txt / pdf / pptx");
                m
            },
            ImportPathError::Inaccessible(p, e) => {
                let mut m = "Could not access: ".to_owned();
                m.push_str(p.as_str());
                m.push_str("\nReason: ");
                m.push_str(e.as_str());
                m
            },
        }
    }
}

/// Final component of a path, as `Path::file_name` finds it.
pub uninterp spec fn file_name_of(p: Seq<char>) -> Option<Seq<char>>;

/// Calls `Path::file_name` (the result named `file_name_of`).
#[verifier::external_body]
fn file_name(p: &str) -> (r: Option<String>)
    ensures
        match r {
            Some(n) => file_name_of(p@) == Some(n@),
            None => file_name_of(p@) is None,
        },
{
    Path::new(p).file_name().map(|n| n.to_string_lossy().into_owned())
}

/// `a` joined with `b` as `PathBuf::push` does on Unix: an absolute `b`
/// replaces `a`; otherwise a `/` goes between them unless `a` is empty or
/// already ends with one.
pub open spec fn join_path_spec(a: Seq<char>, b: Seq<char>) -> Seq<char> {
    if b.len() > 0 && b[0] == '/' {
        b
    } else if a.len() == 0 || a.last() == '/' {
        a + b
    } else {
        a + "/"@ + b
    }
}

/// `Path::join` on Unix, written out as stated.
pub(crate) fn join_path(a: &str, b: &str) -> (r: String)
    ensures
        r@ == join_path_spec(a@, b@),
{
    let ac = chars_of(a);
    let bc = chars_of(b);
    if bc.len() > 0 && bc[0] == '/' {
        return b.to_string();
    }
    let mut out = a.to_string();
    if !(ac.len() == 0 || ac[ac.len() - 1] == '/') {
        out.push_str("/");
    }
    out.push_str(b);
    out
}

/// Index of the last `.` of `s`, if any.
pub open spec fn last_dot(s: Seq<char>) -> Option<int>
    decreases s.len(),
{
    if s.len() == 0 {
        None
    } else if s.last() == '.' {
        Some(s.len() - 1)
    } else {
        last_dot(s.drop_last())
    }
}

/// The extension of a file name, as `Path::extension` defines it: none
/// without a `.`, none when the only `.` starts the name (and none for
/// `..`); otherwise what follows the last `.`.
pub open spec fn extension_of(name: Seq<char>) -> Option<Seq<char>> {
    if name == ".."@ {
        None
    } else {
        match last_dot(name) {
            None => None,
            Some(i) => if i == 0 {
                None
            } else {
                Some(name.skip(i + 1))
            },
        }
    }
}

pub open spec fn ascii_lower(c: char) -> char {
    if 'A' <= c && c <= 'Z' {
        ((c as u32) + 32) as char
    } else {
        c
    }
}

/// `str::to_ascii_lowercase`.
pub open spec fn ascii_lowercase(s: Seq<char>) -> Seq<char> {
    s.map_values(|c: char| ascii_lower(c))
}

pub open spec fn supported_extension(e: Seq<char>) -> bool {
    let l = ascii_lowercase(e);
    l == "md"@ || l == "txt"@ || l == "pdf"@ || l == "pptx"@
}

/// Whether the importer takes this file: extension md, txt, pdf or pptx,
/// in any ASCII case.
pub open spec fn supported_file(path: Seq<char>) -> bool {
    match file_name_of(path) {
        Some(n) => supported_name(n),
        None => false,
    }
}

pub(crate) fn ascii_lower_exec(c: char) -> (r: char)
    ensures
        r == ascii_lower(c),
{
    if 'A' <= c && c <= 'Z' {
        let u = c as u32;
        let b = u as u8;
        assert(b == u) by (bit_vector)
            requires
                u <= 90,
                b == u as u8;
        (b + 32) as char
    } else {
        c
    }
}

fn extension_exec(name: &Vec<char>) -> (r: Option<Vec<char>>)
    ensures
        match r {
            Some(e) => extension_of(name@) == Some(e@),
            None => extension_of(name@) is None,
        },
{
    if chars_eq(name, &chars_of("..")) {
        return None;
    }
    let mut i: usize = name.len();
    assert(name@.take(i as int) =~= name@);
    while i > 0 && name[i - 1] != '.'
        invariant
            i <= name.len(),
            last_dot(name@) == last_dot(name@.take(i as int)),
        decreases i,
    {
        assert(name@.take(i as int).drop_last() =~= name@.take(i - 1));
        i = i - 1;
    }
    if i == 0 {
        assert(name@.take(0) =~= Seq::<char>::empty());
        return None;
    }
    assert(name@.take(i as int).last() == '.');
    if i - 1 == 0 {
        return None;
    }
    let mut e: Vec<char> = Vec::new();
    let mut k: usize = i;
    while k < name.len()
        invariant
            i <= k <= name.len(),
            e@ == name@.subrange(i as int, k as int),
        decreases name.len() - k,
    {
        e.push(name[k]);
        k = k + 1;
        assert(e@ =~= name@.subrange(i as int, k as int));
    }
    assert(e@ =~= name@.skip(i as int));
    Some(e)
}

/// Whether a file name has a supported extension (md, txt, pdf or pptx, in
/// any ASCII case).
pub open spec fn supported_name(n: Seq<char>) -> bool {
    match extension_of(n) {
        Some(e) => supported_extension(e),
        None => false,
    }
}

/// Whether the importer takes a file of this name.
pub fn is_supported_name(name: &str) -> (r: bool)
    ensures
        r == supported_name(name@),
{
    let e = match extension_exec(&chars_of(name)) {
        Some(e) => e,
        None => return false,
    };
    let mut l: Vec<char> = Vec::new();
    let mut k: usize = 0;
    while k < e.len()
        invariant
            k <= e.len(),
            l@ == e@.take(k as int).map_values(|c: char| ascii_lower(c)),
        decreases e.len() - k,
    {
        l.push(ascii_lower_exec(e[k]));
        k = k + 1;
        assert(l@ =~= e@.take(k as int).map_values(|c: char| ascii_lower(c)));
    }
    assert(e@.take(e.len() as int) =~= e@);
    chars_eq(&l, &chars_of("md")) || chars_eq(&l, &chars_of("txt")) || chars_eq(&l, &chars_of("pdf"))
        || chars_eq(&l, &chars_of("pptx"))
}

/// Whether the importer takes this file (same rule as the importer's file
/// collection): its name (`Path::file_name`) has a supported extension.
pub fn is_supported_file(path: &str) -> (r: bool)
    ensures
        r == supported_file(path@),
{
    match file_name(path) {
        Some(n) => is_supported_name(n.as_str()),
        None => false,
    }
}

/// `s` without leading `"` characters.
pub open spec fn strip_quotes_start(s: Seq<char>) -> Seq<char>
    decreases s.len(),
{
    if s.len() > 0 && s[0] == '"' {
        strip_quotes_start(s.drop_first())
    } else {
        s
    }
}

/// `s` without trailing `"` characters.
pub open spec fn strip_quotes_end(s: Seq<char>) -> Seq<char>
    decreases s.len(),
{
    if s.len() > 0 && s.last() == '"' {
        strip_quotes_end(s.drop_last())
    } else {
        s
    }
}

/// The typed path: trimmed, quotes stripped, trimmed again.
pub open spec fn normalized_input(input: Seq<char>) -> Seq<char> {
    trim(strip_quotes_end(strip_quotes_start(trim(input))))
}

fn strip_quotes(s: &Vec<char>) -> (r: Vec<char>)
    ensures
        r@ == strip_quotes_end(strip_quotes_start(s@)),
{
    let mut i: usize = 0;
    assert(s@.skip(0) =~= s@);
    while i < s.len() && s[i] == '"'
        invariant
            i <= s.len(),
            strip_quotes_start(s@) == strip_quotes_start(s@.skip(i as int)),
        decreases s.len() - i,
    {
        assert(s@.skip(i as int).drop_first() =~= s@.skip(i + 1));
        i = i + 1;
    }
    let ghost t = s@.skip(i as int);
    assert(strip_quotes_start(s@) == t);
    let mut j: usize = s.len();
    assert(t.take(j - i) =~= t);
    while j > i && s[j - 1] == '"'
        invariant
            i <= j <= s.len(),
            t == s@.skip(i as int),
            strip_quotes_end(t) == strip_quotes_end(t.take(j - i)),
        decreases j,
    {
        assert(t.take(j - i).drop_last() =~= t.take(j - i - 1));
        j = j - 1;
    }
    let mut r: Vec<char> = Vec::new();
    let mut k: usize = i;
    while k < j
        invariant
            i <= k <= j <= s.len(),
            r@ == s@.subrange(i as int, k as int),
        decreases j - k,
    {
        r.push(s[k]);
        k = k + 1;
        assert(r@ =~= s@.subrange(i as int, k as int));
    }
    assert(t.take(j - i) =~= s@.subrange(i as int, j as int));
    r
}

/// The path to probe for a typed import path, before resolving it against
/// the working directory: a blank input is not found; a bare `~` is the
/// home directory and `~/x` (or `~\x`) is `x` under it, when the home
/// directory is known; anything else is taken as typed.
pub open spec fn import_candidate_spec(input: Seq<char>, home: Option<Seq<char>>) -> Result<
    Seq<char>,
    Seq<char>,
> {
    let t = normalized_input(input);
    if t.len() == 0 {
        Err(Seq::empty())
    } else if t == "~"@ {
        match home {
            Some(h) => Ok(h),
            None => Ok(t),
        }
    } else if t.len() >= 2 && t[0] == '~' && (t[1] == '/' || t[1] == '\\') {
        match home {
            Some(h) => Ok(join_path_spec(h, t.skip(2))),
            None => Ok(t),
        }
    } else {
        Ok(t)
    }
}

/// Normalises a typed import path and expands `~` with `home`.
/// A blank input is `NotFound` with an empty path.
pub fn import_candidate(input: &str, home: Option<String>) -> (r: Result<String, ImportPathError>)
    ensures
        match r {
            Ok(p) => import_candidate_spec(input@, match home {
                Some(h) => Some(h@),
                None => None,
            }) == Ok::<Seq<char>, Seq<char>>(p@),
            Err(e) => e matches ImportPathError::NotFound(p) && import_candidate_spec(
                input@,
                match home {
                    Some(h) => Some(h@),
                    None => None,
                },
            ) == Err::<Seq<char>, Seq<char>>(p@),
        },
{
    let t = trim_chars(&strip_quotes(&trim_chars(&chars_of(input))));
    if t.len() == 0 {
        return Err(ImportPathError::NotFound(String::new()));
    }
    if chars_eq(&t, &chars_of("~")) {
        return match home {
            Some(h) => Ok(h),
            None => Ok(string_of(&t)),
        };
    }
    if t.len() >= 2 && t[0] == '~' && (t[1] == '/' || t[1] == '\\') {
        return match home {
            Some(h) => {
                let rest = string_of(t.as_slice().split_at(2).1);
                assert(rest@ =~= t@.skip(2));
                Ok(join_path(h.as_str(), rest.as_str()))
            },
            None => Ok(string_of(&t)),
        };
    }
    Ok(string_of(&t))
}

/// What the file system says about a candidate path.
#[derive(Debug, Clone, Copy, PartialEq, Eq, Structural)]
pub enum PathKind {
    File,
    /// A directory, and whether any supported file lies below it.
    Dir { has_supported: bool },
    /// Neither (socket and the like).
    Other,
}

/// Outcome of probing a candidate path.
#[derive(Debug, Clone)]
pub enum PathProbe {
    /// It does not exist.
    Missing,
    /// Its metadata could not be read; the reason.
    Unreadable(String),
    /// It exists; its canonical form (the path itself when that cannot be
    /// computed) and its kind.
    Found { canonical: String, kind: PathKind },
}

/// Decides on a probed path: a supported file or a directory holding a
/// supported file is a target; otherwise the matching error.
pub fn classify_import(path: &str, probe: PathProbe) -> (r: Result<ImportTarget, ImportPathError>)
    ensures
        match probe {
            PathProbe::Missing => r matches Err(ImportPathError::NotFound(p)) && p@ == path@,
            PathProbe::Unreadable(e) => r matches Err(ImportPathError::Inaccessible(p, why)) && p@
                == path@ && why@ == e@,
            PathProbe::Found { canonical, kind } => match kind {
                PathKind::File => if supported_file(canonical@) {
                    r matches Ok(t) && t.path@ == canonical@ && t.is_file
                } else {
                    r matches Err(ImportPathError::UnsupportedType(p)) && p@ == canonical@
                },
                PathKind::Dir { has_supported } => if has_supported {
                    r matches Ok(t) && t.path@ == canonical@ && !t.is_file
                } else {
                    r matches Err(ImportPathError::EmptyDir(p)) && p@ == canonical@
                },
                PathKind::Other => r matches Err(ImportPathError::NotFileOrDir(p)) && p@
                    == canonical@,
            },
        },
{
    match probe {
        PathProbe::Missing => Err(ImportPathError::NotFound(path.to_owned())),
        PathProbe::Unreadable(e) => Err(ImportPathError::Inaccessible(path.to_owned(), e)),
        PathProbe::Found { canonical, kind } => match kind {
            PathKind::File => {
                if is_supported_file(canonical.as_str()) {
                    Ok(ImportTarget { path: canonical, is_file: true })
                } else {
                    Err(ImportPathError::UnsupportedType(canonical))
                }
            },
            PathKind::Dir { has_supported } => {
                if has_supported {
                    Ok(ImportTarget { path: canonical, is_file: false })
                } else {
                    Err(ImportPathError::EmptyDir(canonical))
                }
            },
            PathKind::Other => Err(ImportPathError::NotFileOrDir(canonical)),
        },
    }
}

} // verus!
