//! Output path resolution: `<dir>/<stem>_<name>.<ext>` from an input path
//! and a capture name.
//!
//! Paths are modelled as `/`-separated strings: trailing separators do not
//! count, the file name is the last segment (a final `..` is no file
//! name), and the extension is what follows the last `.` of the file
//! name, when both stem and extension are non-empty, defaulting to `png`
//! otherwise.

use vstd::prelude::*;

verus! {

use vstd::string::StrSliceExecFns;
use vstd::string::StringExecFns;
use crate::errors::{CutoutError, ErrorModel};
use crate::scan::{rfind_char, rfind_in};

/// Where the file name starts: right after the last `/`, or at the start.
pub open spec fn file_name_start(path: Seq<char>) -> int {
    match rfind_char(path, '/') {
        Some(k) => k + 1,
        None => 0,
    }
}

/// The path's length once trailing `/` separators are dropped.
pub open spec fn trimmed_len(path: Seq<char>) -> int
    decreases path.len(),
{
    if path.len() > 0 && path.last() == '/' {
        trimmed_len(path.drop_last())
    } else {
        path.len() as int
    }
}

/// A witness pins `trimmed_len` down: it is the cut before which the last
/// character is no separator and after which only separators follow.
pub proof fn lemma_trimmed_len_is(path: Seq<char>, t: int)
    requires
        0 <= t <= path.len(),
        forall|k: int| t <= k < path.len() ==> path[k] == '/',
        t == 0 || path[t - 1] != '/',
    ensures
        trimmed_len(path) == t,
    decreases path.len(),
{
    if path.len() > 0 && path.last() == '/' {
        assert(t < path.len());
        assert(path.drop_last() =~= path.take(path.len() - 1));
        lemma_trimmed_len_is(path.drop_last(), t);
    } else {
        if t < path.len() {
            assert(path[path.len() - 1] == '/');
        }
    }
}

/// The output path for an input path and a capture name, or the error
/// rejecting a path with no file-name component (nothing before the
/// trailing separators, or a final `..`). The stem keeps every dot but
/// the last: `a.b.c.png` has stem `a.b.c` and extension `png`.
pub open spec fn spec_output_path(path: Seq<char>, name: Seq<char>) -> Result<
    Seq<char>,
    ErrorModel,
> {
    let p = path.take(trimmed_len(path));
    let dir = p.take(file_name_start(p));
    let fname = p.skip(file_name_start(p));
    if fname.len() == 0 || fname == seq!['.', '.'] {
        Err(ErrorModel::NoFileName { path })
    } else {
        match rfind_char(fname, '.') {
            Some(j) => if 0 < j && j + 1 < fname.len() {
                Ok(dir + fname.take(j) + "_"@ + name + "."@ + fname.skip(j + 1))
            } else {
                Ok(dir + fname + "_"@ + name + ".png"@)
            },
            None => Ok(dir + fname + "_"@ + name + ".png"@),
        }
    }
}

/// Build the output file path `<dir>/<stem>_<segment_name>.<ext>`, exactly
/// as `spec_output_path` describes it.
pub fn make_output_path(input: &str, segment_name: &str) -> (r: Result<String, CutoutError>)
    ensures
        (match r {
            Ok(p) => spec_output_path(input@, segment_name@) == Ok::<Seq<char>, ErrorModel>(p@),
            Err(e) => spec_output_path(input@, segment_name@) == Err::<Seq<char>, ErrorModel>(e@),
        }),
{
    let n = input.unicode_len();
    let mut end: usize = n;
    while end > 0 && input.get_char(end - 1) == '/'
        invariant
            0 <= end <= n,
            n == input@.len(),
            forall|k: int| end <= k < n ==> input@[k] == '/',
        decreases end,
    {
        end = end - 1;
    }
    proof {
        lemma_trimmed_len_is(input@, end as int);
    }
    let trimmed = input.substring_char(0, end);
    proof {
        assert(trimmed@ =~= input@.take(end as int));
    }
    let start: usize = match rfind_in(trimmed, '/') {
        Some(k) => k + 1,
        None => 0,
    };
    proof {
        assert(start == file_name_start(trimmed@));
    }
    if start == end {
        return Err(CutoutError::NoFileName { path: String::from_str(input) });
    }
    let dir = trimmed.substring_char(0, start);
    let fname = trimmed.substring_char(start, end);
    proof {
        assert(dir@ =~= trimmed@.take(start as int));
        assert(fname@ =~= trimmed@.skip(start as int));
    }
    if fname.unicode_len() == 2 && fname.get_char(0) == '.' && fname.get_char(1) == '.' {
        proof {
            assert(fname@ =~= seq!['.', '.']);
        }
        return Err(CutoutError::NoFileName { path: String::from_str(input) });
    }
    proof {
        assert(fname@ != seq!['.', '.']) by {
            if fname@ == seq!['.', '.'] {
                assert(fname@.len() == 2 && fname@[0] == '.' && fname@[1] == '.');
            }
        }
    }
    let fn_len = fname.unicode_len();
    let mut out = String::from_str(dir);
    let split: Option<usize> = match rfind_in(fname, '.') {
        Some(j) => if 0 < j && j + 1 < fn_len {
            Some(j)
        } else {
            None
        },
        None => None,
    };
    match split {
        Some(j) => {
            let stem = fname.substring_char(0, j);
            let ext = fname.substring_char(j + 1, fn_len);
            proof {
                assert(stem@ =~= fname@.take(j as int));
                assert(ext@ =~= fname@.skip(j + 1));
            }
            out.append(stem);
            out.append("_");
            out.append(segment_name);
            out.append(".");
            out.append(ext);
            proof {
                assert(out@ =~= dir@ + fname@.take(j as int) + "_"@ + segment_name@ + "."@
                    + fname@.skip(j + 1));
            }
        },
        None => {
            out.append(fname);
            out.append("_");
            out.append(segment_name);
            out.append(".png");
            proof {
                assert(out@ =~= dir@ + fname@ + "_"@ + segment_name@ + ".png"@);
            }
        },
    }
    Ok(out)
}

} // verus!
