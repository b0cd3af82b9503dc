//! Where a debug information entry was declared in the source.
use vstd::prelude::*;
use crate::text::{append_chars, str_chars, string_from_chars};

verus! {

/// The source position of a declaration.
#[derive(Debug, Clone)]
pub struct SourceInformation {
    pub directory: Option<String>,
    pub file: Option<String>,
    pub line: Option<u64>,
    pub column: Option<u64>,
}

/// The file entry that a declaration names: its directory, if it has one, and
/// its path.
#[derive(Debug, Clone)]
pub struct DeclFile {
    pub directory: Option<String>,
    pub path_name: String,
}

/// `s` with every leading copy of `p` taken off (`trim_start_matches`).
pub open spec fn trim_prefixes(s: Seq<char>, p: Seq<char>) -> Seq<char>
    decreases s.len(),
{
    if p.len() > 0 && p.len() <= s.len() && s.take(p.len() as int) == p {
        trim_prefixes(s.skip(p.len() as int), p)
    } else {
        s
    }
}

/// The directory as it is reported: below `cwd` when it is not absolute.
pub open spec fn reported_directory(cwd: Seq<char>, dir: Seq<char>) -> Seq<char> {
    if dir.len() > 0 && dir[0] == '/' {
        dir
    } else {
        cwd + seq!['/'] + dir
    }
}

/// The file name as it is reported: without the directory in front of it.
pub open spec fn reported_file(f: DeclFile) -> Seq<char> {
    match f.directory {
        Some(d) => trim_prefixes(f.path_name@, d@),
        None => f.path_name@,
    }
}

fn starts_with_at(s: &Vec<char>, at: usize, p: &Vec<char>) -> (r: bool)
    requires
        at <= s.len(),
    ensures
        r == (p.len() <= s.len() - at && s@.skip(at as int).take(p.len() as int) == p@),
{
    if p.len() > s.len() - at {
        return false;
    }
    let mut i: usize = 0;
    while i < p.len()
        invariant
            i <= p.len() <= s.len() - at,
            forall|j: int| 0 <= j < i ==> s@[at + j] == p@[j],
        decreases p.len() - i,
    {
        if s[at + i] != p[i] {
            assert(s@.skip(at as int).take(p.len() as int)[i as int] != p@[i as int]);
            return false;
        }
        i += 1;
    }
    assert(s@.skip(at as int).take(p.len() as int) =~= p@);
    true
}

/// Takes every leading copy of `p` off `s`.
pub fn trim_start_matches(s: &Vec<char>, p: &Vec<char>) -> (r: Vec<char>)
    ensures
        r@ == trim_prefixes(s@, p@),
{
    let mut at: usize = 0;
    assert(s@.skip(0) =~= s@);
    if p.len() > 0 {
        while starts_with_at(s, at, p)
            invariant
                at <= s.len(),
                p.len() > 0,
                trim_prefixes(s@.skip(at as int), p@) == trim_prefixes(s@, p@),
            decreases s.len() - at,
        {
            assert(s@.skip(at as int).skip(p.len() as int) =~= s@.skip(at + p.len()));
            at = at + p.len();
        }
    }
    let mut r: Vec<char> = Vec::new();
    let mut j: usize = at;
    while j < s.len()
        invariant
            at <= j <= s.len(),
            r@ == s@.subrange(at as int, j as int),
        decreases s.len() - j,
    {
        r.push(s[j]);
        j += 1;
    }
    assert(r@ =~= s@.skip(at as int));
    r
}

impl SourceInformation {
    /// The source position of a declaration from its file entry, line and
    /// column; relative directories are taken below `cwd`.
    pub fn get_die_source_information(
        decl_file: Option<DeclFile>,
        decl_line: Option<u64>,
        decl_column: Option<u64>,
        cwd: &str,
    ) -> (s: SourceInformation)
        ensures
            s.line == decl_line,
            s.column == decl_column,
            match decl_file {
                None => s.file is None && s.directory is None,
                Some(f) => {
                    &&& s.file matches Some(file) && file@ == reported_file(f)
                    &&& match f.directory {
                        Some(d) => s.directory matches Some(dir) && dir@ == reported_directory(
                            cwd@,
                            d@,
                        ),
                        None => s.directory is None,
                    }
                },
            },
    {
        let (file, directory) = match &decl_file {
            None => (None, None),
            Some(f) => match &f.directory {
                Some(d) => {
                    let dir_raw = str_chars(d.as_str());
                    let file_raw = str_chars(f.path_name.as_str());
                    let file = string_from_chars(&trim_start_matches(&file_raw, &dir_raw));
                    let dir = if dir_raw.len() > 0 && dir_raw[0] == '/' {
                        string_from_chars(&dir_raw)
                    } else {
                        let mut full = cwd.to_owned();
                        let mut slash: Vec<char> = Vec::new();
                        slash.push('/');
                        append_chars(&mut full, &slash);
                        append_chars(&mut full, &dir_raw);
                        full
                    };
                    (Some(file), Some(dir))
                },
                None => (Some(f.path_name.clone()), None),
            },
        };
        SourceInformation { directory, file, line: decl_line, column: decl_column }
    }
}

} // verus!
