//! Version-control status, as the apply path consults it: the outside query
//! (running `git` or `hg`) stays with the caller, and this module makes the
//! verified decisions — whether a repository exists, and how the porcelain
//! status output classifies into clean, dirty and staged paths.

use vstd::prelude::*;

verus! {

use vstd::slice::slice_to_vec;

/// Why a status query failed: the query itself failed (with the caller's
/// message), or the status output held a line that fits no known shape.
#[derive(Debug)]
pub enum VcsError {
    Query(String),
    InvalidStatusLine(Vec<u8>),
}

/// What version control says about the working directory.
#[derive(Debug)]
pub enum Status {
    Clean,
    Unclean { dirty: Vec<Vec<u8>>, staged: Vec<Vec<u8>> },
    NoVCS,
    Error(VcsError),
}

/// Whether an existing repository was found: the `git check-ignore` probe
/// exits with code 1 when the directory is inside a repository and not
/// ignored, and any successful `hg` probe counts as a repository.
pub fn existing_vcs_repo(git_exit_code: Option<i32>, hg_found: bool) -> (r: bool)
    ensures
        r == ((git_exit_code matches Some(c) && c == 1) || hg_found),
{
    matches!(git_exit_code, Some(1i32)) || hg_found
}

/// The index of the first occurrence of ` -> ` at or after `i`, or -1.
pub open spec fn find_arrow_from(s: Seq<u8>, i: int) -> int
    decreases s.len() - i,
{
    if i < 0 || i + 4 > s.len() {
        -1
    } else if s[i] == 32 && s[i + 1] == 45 && s[i + 2] == 62 && s[i + 3] == 32 {
        i
    } else {
        find_arrow_from(s, i + 1)
    }
}

/// For a rename entry `from -> to`, the destination path; any other entry is
/// returned whole.
pub open spec fn path_maybe_rename_spec(s: Seq<u8>) -> Seq<u8> {
    let i = find_arrow_from(s, 0);
    if i < 0 {
        s
    } else {
        s.skip(i + 4)
    }
}

/// Extracts the path a status entry names, taking the destination of a
/// rename entry `from -> to`.
pub fn path_maybe_rename(s: &[u8]) -> (r: Vec<u8>)
    ensures
        r@ == path_maybe_rename_spec(s@),
{
    if s.len() >= 4 {
        let stop = s.len() - 4;
        let mut i: usize = 0;
        while i <= stop
            invariant
                0 <= i <= stop + 1,
                stop + 4 == s@.len(),
                find_arrow_from(s@, 0) == find_arrow_from(s@, i as int),
            decreases stop + 1 - i,
        {
            if s[i] == 32 && s[i + 1] == 45 && s[i + 2] == 62 && s[i + 3] == 32 {
                return slice_to_vec(&s[i + 4..s.len()]);
            }
            i += 1;
        }
    }
    slice_to_vec(s)
}

/// A line with one terminating carriage return removed.
pub open spec fn strip_cr(l: Seq<u8>) -> Seq<u8> {
    if l.len() > 0 && l[l.len() - 1] == 13 {
        l.take(l.len() - 1)
    } else {
        l
    }
}

/// The lines of `s` from position `i` on, with `cur` the bytes of the
/// current line read so far: lines end at a line feed (a carriage return
/// before it is dropped), and a final line needs no terminator.
pub open spec fn split_lines_acc(s: Seq<u8>, i: int, cur: Seq<u8>) -> Seq<Seq<u8>>
    decreases s.len() - i,
{
    if i < 0 || i >= s.len() {
        if cur.len() == 0 {
            Seq::empty()
        } else {
            seq![cur]
        }
    } else if s[i] == 10 {
        seq![strip_cr(cur)] + split_lines_acc(s, i + 1, Seq::empty())
    } else {
        split_lines_acc(s, i + 1, cur.push(s[i]))
    }
}

/// The lines of a status output.
pub open spec fn split_lines(s: Seq<u8>) -> Seq<Seq<u8>> {
    split_lines_acc(s, 0, Seq::empty())
}

/// A porcelain entry whose worktree column marks it dirty.
pub open spec fn dirty_line(l: Seq<u8>) -> bool {
    l.len() >= 3 && l[1] != 32
}

/// A porcelain entry whose index column marks it staged (modified, added or
/// renamed).
pub open spec fn staged_line(l: Seq<u8>) -> bool {
    l.len() >= 3 && l[1] == 32 && (l[0] == 77 || l[0] == 65 || l[0] == 82)
}

/// A line the status parser understands.
pub open spec fn valid_line(l: Seq<u8>) -> bool {
    dirty_line(l) || staged_line(l)
}

/// The position of the first line that fits no known shape, or -1.
pub open spec fn first_invalid_from(lines: Seq<Seq<u8>>, i: int) -> int
    decreases lines.len() - i,
{
    if i < 0 || i >= lines.len() {
        -1
    } else if !valid_line(lines[i]) {
        i
    } else {
        first_invalid_from(lines, i + 1)
    }
}

/// The paths of the dirty entries among the first `n` lines, in order.
pub open spec fn dirty_paths_upto(lines: Seq<Seq<u8>>, n: int) -> Seq<Seq<u8>>
    decreases n,
{
    if n <= 0 {
        Seq::empty()
    } else {
        let p = dirty_paths_upto(lines, n - 1);
        if dirty_line(lines[n - 1]) {
            p.push(path_maybe_rename_spec(lines[n - 1].skip(3)))
        } else {
            p
        }
    }
}

/// The paths of the staged entries among the first `n` lines, in order.
pub open spec fn staged_paths_upto(lines: Seq<Seq<u8>>, n: int) -> Seq<Seq<u8>>
    decreases n,
{
    if n <= 0 {
        Seq::empty()
    } else {
        let p = staged_paths_upto(lines, n - 1);
        if staged_line(lines[n - 1]) {
            p.push(path_maybe_rename_spec(lines[n - 1].skip(3)))
        } else {
            p
        }
    }
}

/// What `status` must return, given its inputs.
pub open spec fn status_matches(repo_exists: bool, query: Result<Vec<u8>, String>, r: Status) -> bool {
    if !repo_exists {
        r is NoVCS
    } else {
        match query {
            Err(m) => {
                &&& r matches Status::Error(VcsError::Query(msg))
                &&& msg@ == m@
            },
            Ok(out) => {
                let lines = split_lines(out@);
                let inv = first_invalid_from(lines, 0);
                if inv >= 0 {
                    &&& r matches Status::Error(VcsError::InvalidStatusLine(l))
                    &&& l@ == lines[inv]
                } else {
                    let d = dirty_paths_upto(lines, lines.len() as int);
                    let st = staged_paths_upto(lines, lines.len() as int);
                    if d.len() == 0 && st.len() == 0 {
                        r is Clean
                    } else {
                        &&& r matches Status::Unclean { dirty, staged }
                        &&& dirty.deep_view() == d
                        &&& staged.deep_view() == st
                    }
                }
            },
        }
    }
}

/// What the apply path does with the gathered status.
#[derive(Clone, Copy, Debug, PartialEq, Eq, Structural)]
pub enum ApplyDecision {
    Proceed,
    ReportVcsError,
    AbortNoVcs,
    AbortUnclean,
}

/// Gates destructive writes on the version-control status and the override
/// flags: a status query error is reported and nothing is written; a missing
/// repository aborts unless overridden; dirty or staged files abort unless
/// their overrides are given; otherwise the changes may be committed.
pub fn apply_gate(
    status: &Status,
    allow_dirty: bool,
    allow_staged: bool,
    allow_no_vcs: bool,
) -> (r: ApplyDecision)
    ensures
        status is Error ==> r == ApplyDecision::ReportVcsError,
        status is NoVCS && !allow_no_vcs ==> r == ApplyDecision::AbortNoVcs,
        status is NoVCS && allow_no_vcs ==> r == ApplyDecision::Proceed,
        status is Clean ==> r == ApplyDecision::Proceed,
        status matches Status::Unclean { dirty, staged } ==> r == (if (dirty@.len() > 0
            && !allow_dirty) || (staged@.len() > 0 && !allow_staged) {
            ApplyDecision::AbortUnclean
        } else {
            ApplyDecision::Proceed
        }),
{
    match status {
        Status::Error(_) => ApplyDecision::ReportVcsError,
        Status::NoVCS => if allow_no_vcs {
            ApplyDecision::Proceed
        } else {
            ApplyDecision::AbortNoVcs
        },
        Status::Unclean { dirty, staged } => {
            if (dirty.len() > 0 && !allow_dirty) || (staged.len() > 0 && !allow_staged) {
                ApplyDecision::AbortUnclean
            } else {
                ApplyDecision::Proceed
            }
        },
        Status::Clean => ApplyDecision::Proceed,
    }
}

fn split_status_lines(out: &[u8]) -> (lines: Vec<Vec<u8>>)
    ensures
        lines.deep_view() == split_lines(out@),
{
    let mut lines: Vec<Vec<u8>> = Vec::new();
    let mut cur: Vec<u8> = Vec::new();
    let mut i: usize = 0;
    while i < out.len()
        invariant
            0 <= i <= out@.len(),
            split_lines(out@) == lines.deep_view() + split_lines_acc(out@, i as int, cur@),
        decreases out@.len() - i,
    {
        let b = out[i];
        if b == 10 {
            let ghost prev = lines.deep_view();
            let ghost curv = cur@;
            if cur.len() > 0 && cur[cur.len() - 1] == 13 {
                cur.pop();
            }
            proof {
                assert(cur@ =~= strip_cr(curv));
            }
            lines.push(cur);
            cur = Vec::new();
            proof {
                assert(lines.deep_view() =~~= prev.push(strip_cr(curv)));
                assert(prev + split_lines_acc(out@, i as int, curv) =~~= prev.push(strip_cr(curv))
                    + split_lines_acc(out@, i + 1, Seq::empty()));
            }
        } else {
            cur.push(b);
        }
        i += 1;
    }
    let ghost prev = lines.deep_view();
    let ghost curv = cur@;
    if cur.len() > 0 {
        lines.push(cur);
        proof {
            assert(lines.deep_view() =~~= prev.push(curv));
            assert(prev + split_lines_acc(out@, out@.len() as int, curv) =~~= prev.push(curv));
        }
    } else {
        proof {
            assert(prev + split_lines_acc(out@, out@.len() as int, curv) =~~= prev);
        }
    }
    lines
}

/// Classifies the working directory from the inputs the caller gathered:
/// whether a repository was found at all, and either the bytes that the
/// porcelain status query printed or the message it failed with.
#[verifier::loop_isolation(false)]
pub fn status(repo_exists: bool, query: &Result<Vec<u8>, String>) -> (r: Status)
    ensures
        status_matches(repo_exists, *query, r),
{
    if !repo_exists {
        return Status::NoVCS;
    }
    let out = match query {
        Ok(out) => out,
        Err(m) => {
            return Status::Error(VcsError::Query(m.clone()));
        },
    };
    let lines = split_status_lines(out.as_slice());
    let ghost lines_v = split_lines(out@);
    let mut dirty: Vec<Vec<u8>> = Vec::new();
    let mut staged: Vec<Vec<u8>> = Vec::new();
    let mut i: usize = 0;
    while i < lines.len()
        invariant
            0 <= i <= lines@.len(),
            lines.deep_view() == lines_v,
            lines_v.len() == lines@.len(),
            first_invalid_from(lines_v, 0) == first_invalid_from(lines_v, i as int),
            dirty.deep_view() == dirty_paths_upto(lines_v, i as int),
            staged.deep_view() == staged_paths_upto(lines_v, i as int),
        decreases lines@.len() - i,
    {
        let line = &lines[i];
        proof {
            assert(lines_v[i as int] =~= lines@[i as int]@);
        }
        if line.len() >= 3 && line[1] != 32 {
            let tail = &line[3..line.len()];
            let path = path_maybe_rename(tail);
            let ghost prevd = dirty.deep_view();
            dirty.push(path);
            proof {
                assert(tail@ =~= lines_v[i as int].skip(3));
                assert(dirty_line(lines_v[i as int]));
                assert(dirty.deep_view() =~~= prevd.push(path@));
                assert(prevd.push(path@) =~~= dirty_paths_upto(lines_v, i + 1));
            }
        } else if line.len() >= 3 && (line[0] == 77 || line[0] == 65 || line[0] == 82) {
            let tail = &line[3..line.len()];
            let path = path_maybe_rename(tail);
            let ghost prevs = staged.deep_view();
            staged.push(path);
            proof {
                assert(tail@ =~= lines_v[i as int].skip(3));
                assert(staged_line(lines_v[i as int]) && !dirty_line(lines_v[i as int]));
                assert(staged.deep_view() =~~= prevs.push(path@));
                assert(prevs.push(path@) =~~= staged_paths_upto(lines_v, i + 1));
            }
        } else {
            let bad = slice_to_vec(line.as_slice());
            proof {
                assert(!valid_line(lines_v[i as int]));
                assert(first_invalid_from(lines_v, i as int) == i as int);
                assert(first_invalid_from(lines_v, 0) == i as int);
                assert(bad@ =~= lines_v[i as int]);
            }
            return Status::Error(VcsError::InvalidStatusLine(bad));
        }
        i += 1;
    }
    proof {
        assert(first_invalid_from(lines_v, lines_v.len() as int) == -1);
    }
    if dirty.len() == 0 && staged.len() == 0 {
        proof {
            assert(dirty.deep_view() =~~= Seq::<Seq<u8>>::empty());
            assert(dirty_paths_upto(lines_v, lines_v.len() as int).len() == 0);
        }
        Status::Clean
    } else {
        Status::Unclean { dirty, staged }
    }
}

} // verus!
