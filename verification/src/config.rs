//! The configuration a generation run works from: the project name, the
//! target directory, and one choice per tool axis.

use vstd::prelude::*;

use crate::text::{contains_sub, occurs_in, replace_all, replace_of};

verus! {

#[derive(Debug, Clone, Copy, PartialEq, Eq, Structural)]
pub enum PackageManager {
    Npm,
    Yarn,
    Pnpm,
}

#[derive(Debug, Clone, Copy, PartialEq, Eq, Structural)]
pub enum Linter {
    EsLint,
    Biome,
    NoLinter,
}

#[derive(Debug, Clone, Copy, PartialEq, Eq, Structural)]
pub enum Formatter {
    Prettier,
    Biome,
    NoFormatter,
}

#[derive(Debug, Clone, Copy, PartialEq, Eq, Structural)]
pub enum TestTool {
    Jest,
    Vitest,
    NoTestTool,
}

/// The user's resolved choices for one generation run.
#[derive(Debug)]
pub struct ProjectConfig {
    pub target_dir_path: String,
    pub name: String,
    pub package_manager: PackageManager,
    pub linter: Linter,
    pub formatter: Formatter,
    pub test_tool: TestTool,
}

#[derive(Debug, Clone, Copy, PartialEq, Eq, Structural)]
pub enum PathError {
    /// The raw path contains a `../` segment, which is not permitted.
    ParentReference,
}

/// `s` with every trailing `/` removed.
pub open spec fn trim_end_slashes(s: Seq<char>) -> Seq<char>
    decreases s.len(),
{
    if s.len() > 0 && s.last() == '/' {
        trim_end_slashes(s.drop_last())
    } else {
        s
    }
}

proof fn lemma_trim_end_slashes_at(s: Seq<char>, k: int)
    requires
        0 <= k <= s.len(),
        forall|j: int| k <= j < s.len() ==> s[j] == '/',
        k > 0 ==> s[k - 1] != '/',
    ensures
        trim_end_slashes(s) == s.take(k),
    decreases s.len(),
{
    if s.len() > 0 && s.last() == '/' {
        assert(k < s.len());
        let s1 = s.drop_last();
        lemma_trim_end_slashes_at(s1, k);
        assert(s1.take(k) =~= s.take(k));
    } else {
        assert(k == s.len());
        assert(s.take(k) =~= s);
    }
}

/// The sanitized target directory: what the raw first argument (or `.` when
/// none is given) becomes after every `./` is removed and trailing `/`
/// stripped.
pub open spec fn dir_path_of(raw: Seq<char>) -> Seq<char> {
    trim_end_slashes(replace_of(raw, "./"@, Seq::empty()))
}

fn trim_end_slash_str(s: &str) -> (r: String)
    ensures
        r@ == trim_end_slashes(s@),
{
    let n = s.unicode_len();
    let mut k: usize = n;
    let mut stop = false;
    while !stop
        invariant
            0 <= k <= n,
            n == s@.len(),
            forall|j: int| k <= j < n ==> s@[j] == '/',
            stop ==> (k == 0 || s@[k - 1] != '/'),
        decreases k + (if stop { 0int } else { 1int }),
    {
        if k > 0 {
            let c = s.get_char(k - 1);
            if c == '/' {
                k = k - 1;
            } else {
                stop = true;
            }
        } else {
            stop = true;
        }
    }
    proof {
        lemma_trim_end_slashes_at(s@, k as int);
    }
    let r = String::from_str(s.substring_char(0, k));
    assert(r@ =~= s@.take(k as int));
    r
}

/// Turns the command-line arguments into the sanitized target directory: the
/// first argument (or `.` when there is none) with every `./` removed and
/// trailing `/` stripped; rejected when it refers to a parent directory.
pub fn convert_to_dir_path(args: &Vec<String>) -> (r: Result<String, PathError>)
    ensures
        ({
            let raw = if args@.len() == 0 {
                "."@
            } else {
                args@[0]@
            };
            match r {
                Ok(p) => !occurs_in(raw, "../"@) && p@ == dir_path_of(raw),
                Err(e) => occurs_in(raw, "../"@) && e == PathError::ParentReference,
            }
        }),
{
    let dot = String::from_str(".");
    let raw: &String = if args.len() == 0 {
        &dot
    } else {
        &args[0]
    };
    if contains_sub(raw.as_str(), "../") {
        return Err(PathError::ParentReference);
    }
    proof {
        reveal_strlit("./");
        reveal_strlit("");
    }
    let stripped = replace_all(raw.as_str(), "./", "");
    assert(""@ =~= Seq::<char>::empty());
    let trimmed = trim_end_slash_str(stripped.as_str());
    Ok(trimmed)
}

} // verus!
