//! The lexical resolution strategy: seeded by a byte offset inside the
//! target identifier, it finds the definition's byte range by scanning for
//! statement and block delimiters, treating bytes inside single- or
//! double-quoted literals — including backslash-escaped quotes — as inert.
//! It needs no parse of the buffer, but is
//! unsafe on macro-expanded spans: callers must filter those out first.

use vstd::prelude::*;

verus! {

use crate::cauterize::{
    ByteRange,
    delete_chunks,
    delete_spec,
    expand_all_spec,
    expand_ranges_to_include_whitespace,
    is_ascii_ws,
};

/// A top-level separator between definitions.
pub open spec fn is_separator(b: u8) -> bool {
    b == 59 || b == 123 || b == 125
}

/// The position just after the nearest separator strictly before `j`, or 0
/// when none precedes it.
pub open spec fn back_scan(s: Seq<u8>, j: int) -> int
    decreases j,
{
    if j <= 0 {
        0
    } else if is_separator(s[j - 1]) {
        j
    } else {
        back_scan(s, j - 1)
    }
}

/// The first position at or after `j` that holds a non-whitespace byte, or
/// `s.len()` when only whitespace remains.
pub open spec fn skip_ws(s: Seq<u8>, j: int) -> int
    decreases s.len() - j,
{
    if 0 <= j < s.len() && is_ascii_ws(s[j]) {
        skip_ws(s, j + 1)
    } else {
        j
    }
}

/// Where the forward scan stands with respect to quoted literals: outside
/// any literal, inside one, or inside one just after a backslash (so that an
/// escaped quote does not close the literal).
#[derive(Clone, Copy, Debug, PartialEq, Eq, Structural)]
pub enum Quote {
    Outside,
    Single,
    SingleEscaped,
    Double,
    DoubleEscaped,
}

/// The forward scan from position `j`: outside a block, a `;` ends the
/// definition just after it and a `{` opens its block; inside the block,
/// brace depth is tracked until it returns to zero.  An opening quote
/// suspends delimiter counting until its matching close; a backslash inside
/// a literal escapes the byte after it.  `None` when the buffer ends first.
pub open spec fn fwd_scan(s: Seq<u8>, j: int, in_block: bool, depth: int, q: Quote) -> Option<int>
    decreases s.len() - j,
{
    if j < 0 || j >= s.len() {
        None
    } else {
        let b = s[j];
        match q {
            Quote::Single => fwd_scan(
                s,
                j + 1,
                in_block,
                depth,
                if b == 92 {
                    Quote::SingleEscaped
                } else if b == 39 {
                    Quote::Outside
                } else {
                    Quote::Single
                },
            ),
            Quote::SingleEscaped => fwd_scan(s, j + 1, in_block, depth, Quote::Single),
            Quote::Double => fwd_scan(
                s,
                j + 1,
                in_block,
                depth,
                if b == 92 {
                    Quote::DoubleEscaped
                } else if b == 34 {
                    Quote::Outside
                } else {
                    Quote::Double
                },
            ),
            Quote::DoubleEscaped => fwd_scan(s, j + 1, in_block, depth, Quote::Double),
            Quote::Outside => {
                if b == 39 {
                    fwd_scan(s, j + 1, in_block, depth, Quote::Single)
                } else if b == 34 {
                    fwd_scan(s, j + 1, in_block, depth, Quote::Double)
                } else if !in_block {
                    if b == 59 {
                        Some(j + 1)
                    } else if b == 123 {
                        fwd_scan(s, j + 1, true, 1, Quote::Outside)
                    } else {
                        fwd_scan(s, j + 1, false, 0, Quote::Outside)
                    }
                } else {
                    if b == 123 {
                        fwd_scan(s, j + 1, true, depth + 1, Quote::Outside)
                    } else if b == 125 {
                        if depth <= 1 {
                            Some(j + 1)
                        } else {
                            fwd_scan(s, j + 1, true, depth - 1, Quote::Outside)
                        }
                    } else {
                        fwd_scan(s, j + 1, true, depth, Quote::Outside)
                    }
                }
            },
        }
    }
}

/// The range the lexical strategy assigns to the definition around `seed`:
/// from the first non-whitespace byte after the preceding separator to just
/// after the definition's closing `;` or `}`.
pub open spec fn lexical_resolve_spec(s: Seq<u8>, seed: int) -> Option<ByteRange> {
    match fwd_scan(s, seed, false, 0, Quote::Outside) {
        Some(end) => Some(
            ByteRange { start: skip_ws(s, back_scan(s, seed)) as usize, end: end as usize },
        ),
        None => None,
    }
}

proof fn lemma_back_scan_bounds(s: Seq<u8>, j: int)
    requires
        j >= 0,
    ensures
        0 <= back_scan(s, j) <= j,
    decreases j,
{
    if j > 0 && !is_separator(s[j - 1]) {
        lemma_back_scan_bounds(s, j - 1);
    }
}

proof fn lemma_skip_ws_bounds(s: Seq<u8>, j: int)
    requires
        0 <= j <= s.len(),
    ensures
        j <= skip_ws(s, j) <= s.len(),
    decreases s.len() - j,
{
    if 0 <= j < s.len() && is_ascii_ws(s[j]) {
        lemma_skip_ws_bounds(s, j + 1);
    }
}

proof fn lemma_fwd_scan_bounds(s: Seq<u8>, j: int, in_block: bool, depth: int, q: Quote)
    ensures
        fwd_scan(s, j, in_block, depth, q) matches Some(e) ==> j < e <= s.len(),
    decreases s.len() - j,
{
    if 0 <= j < s.len() {
        let b = s[j];
        match q {
            Quote::Single => {
                lemma_fwd_scan_bounds(
                    s,
                    j + 1,
                    in_block,
                    depth,
                    if b == 92 {
                        Quote::SingleEscaped
                    } else if b == 39 {
                        Quote::Outside
                    } else {
                        Quote::Single
                    },
                );
            },
            Quote::SingleEscaped => {
                lemma_fwd_scan_bounds(s, j + 1, in_block, depth, Quote::Single);
            },
            Quote::Double => {
                lemma_fwd_scan_bounds(
                    s,
                    j + 1,
                    in_block,
                    depth,
                    if b == 92 {
                        Quote::DoubleEscaped
                    } else if b == 34 {
                        Quote::Outside
                    } else {
                        Quote::Double
                    },
                );
            },
            Quote::DoubleEscaped => {
                lemma_fwd_scan_bounds(s, j + 1, in_block, depth, Quote::Double);
            },
            Quote::Outside => {
                lemma_fwd_scan_bounds(s, j + 1, in_block, depth, Quote::Single);
                lemma_fwd_scan_bounds(s, j + 1, in_block, depth, Quote::Double);
                lemma_fwd_scan_bounds(s, j + 1, false, 0, Quote::Outside);
                lemma_fwd_scan_bounds(s, j + 1, true, 1, Quote::Outside);
                lemma_fwd_scan_bounds(s, j + 1, true, depth + 1, Quote::Outside);
                lemma_fwd_scan_bounds(s, j + 1, true, depth - 1, Quote::Outside);
                lemma_fwd_scan_bounds(s, j + 1, true, depth, Quote::Outside);
            },
        }
    }
}

fn back_scan_exec(src: &[u8], seed: usize) -> (r: usize)
    requires
        seed <= src@.len(),
    ensures
        r as int == back_scan(src@, seed as int),
        r <= seed,
{
    proof {
        lemma_back_scan_bounds(src@, seed as int);
    }
    let mut j: usize = seed;
    while j > 0
        invariant
            0 <= j <= seed <= src@.len(),
            back_scan(src@, j as int) == back_scan(src@, seed as int),
        decreases j,
    {
        let b = src[j - 1];
        if b == 59 || b == 123 || b == 125 {
            return j;
        }
        j -= 1;
    }
    0
}

fn skip_ws_exec(src: &[u8], from: usize) -> (r: usize)
    requires
        from <= src@.len(),
    ensures
        r as int == skip_ws(src@, from as int),
        from <= r <= src@.len(),
{
    proof {
        lemma_skip_ws_bounds(src@, from as int);
    }
    let mut j: usize = from;
    while j < src.len()
        invariant
            from <= j <= src@.len(),
            skip_ws(src@, j as int) == skip_ws(src@, from as int),
        decreases src@.len() - j,
    {
        let b = src[j];
        if !(b == 32 || b == 9 || b == 10 || b == 12 || b == 13) {
            return j;
        }
        j += 1;
    }
    src.len()
}

fn fwd_scan_exec(src: &[u8], seed: usize) -> (r: Option<usize>)
    requires
        seed <= src@.len(),
    ensures
        match r {
            Some(e) => fwd_scan(src@, seed as int, false, 0, Quote::Outside) == Some(e as int)
                && seed < e <= src@.len(),
            None => fwd_scan(src@, seed as int, false, 0, Quote::Outside) is None,
        },
{
    proof {
        lemma_fwd_scan_bounds(src@, seed as int, false, 0, Quote::Outside);
    }
    let mut j: usize = seed;
    let mut in_block = false;
    let mut depth: usize = 0;
    let mut q = Quote::Outside;
    while j < src.len()
        invariant
            seed <= j <= src@.len(),
            depth <= j,
            !in_block ==> depth == 0,
            fwd_scan(src@, j as int, in_block, depth as int, q) == fwd_scan(
                src@,
                seed as int,
                false,
                0,
                Quote::Outside,
            ),
        decreases src@.len() - j,
    {
        let b = src[j];
        match q {
            Quote::Single => {
                if b == 92 {
                    q = Quote::SingleEscaped;
                } else if b == 39 {
                    q = Quote::Outside;
                }
            },
            Quote::SingleEscaped => {
                q = Quote::Single;
            },
            Quote::Double => {
                if b == 92 {
                    q = Quote::DoubleEscaped;
                } else if b == 34 {
                    q = Quote::Outside;
                }
            },
            Quote::DoubleEscaped => {
                q = Quote::Double;
            },
            Quote::Outside => {
                if b == 39 {
                    q = Quote::Single;
                } else if b == 34 {
                    q = Quote::Double;
                } else if !in_block {
                    if b == 59 {
                        return Some(j + 1);
                    } else if b == 123 {
                        in_block = true;
                        depth = 1;
                    }
                } else {
                    if b == 123 {
                        depth = depth + 1;
                    } else if b == 125 {
                        if depth <= 1 {
                            return Some(j + 1);
                        }
                        depth = depth - 1;
                    }
                }
            },
        }
        j += 1;
    }
    None
}

/// Resolves the definition around byte offset `seed` to its byte range, by
/// the lexical scanning rules alone; `None` when no definition end is found
/// before the buffer runs out.
pub fn lexical_resolve(src: &[u8], seed: usize) -> (r: Option<ByteRange>)
    requires
        seed <= src@.len(),
    ensures
        r == lexical_resolve_spec(src@, seed as int),
        r matches Some(br) ==> br.start <= src@.len() && br.end <= src@.len(),
{
    match fwd_scan_exec(src, seed) {
        Some(end) => {
            let b = back_scan_exec(src, seed);
            let start = skip_ws_exec(src, b);
            Some(ByteRange { start, end })
        },
        None => None,
    }
}

/// The ranges the seeds at positions `i..` resolve to, in seed order; seeds
/// whose definition end is not found contribute nothing.
pub open spec fn lexical_ranges_from(s: Seq<u8>, seeds: Seq<usize>, i: int) -> Seq<ByteRange>
    decreases seeds.len() - i,
{
    if i < 0 || i >= seeds.len() {
        Seq::empty()
    } else {
        let rest = lexical_ranges_from(s, seeds, i + 1);
        match lexical_resolve_spec(s, seeds[i] as int) {
            Some(r) => seq![r] + rest,
            None => rest,
        }
    }
}

/// What deleting the definitions around the given seeds means: resolve each
/// seed lexically, widen with the whitespace rules, and delete.
pub open spec fn lexical_delete_spec(s: Seq<u8>, seeds: Seq<usize>) -> Seq<u8> {
    delete_spec(s, expand_all_spec(s, lexical_ranges_from(s, seeds, 0)))
}

/// Deletes the definitions around the given seed offsets, resolving each by
/// the lexical strategy and widening with the whitespace rules.
pub fn lexical_delete(src: &[u8], seeds: &Vec<usize>) -> (r: Vec<u8>)
    requires
        forall|i: int| 0 <= i < seeds@.len() ==> (#[trigger] seeds@[i]) <= src@.len(),
    ensures
        r@ == lexical_delete_spec(src@, seeds@),
{
    let mut ranges: Vec<ByteRange> = Vec::new();
    let ghost full = lexical_ranges_from(src@, seeds@, 0);
    let mut i: usize = 0;
    while i < seeds.len()
        invariant
            0 <= i <= seeds@.len(),
            forall|k: int| 0 <= k < seeds@.len() ==> (#[trigger] seeds@[k]) <= src@.len(),
            full == lexical_ranges_from(src@, seeds@, 0),
            full == ranges@ + lexical_ranges_from(src@, seeds@, i as int),
            forall|k: int| 0 <= k < ranges@.len() ==> (#[trigger] ranges@[k]).start <= src@.len()
                && ranges@[k].end <= src@.len(),
        decreases seeds@.len() - i,
    {
        match lexical_resolve(src, seeds[i]) {
            Some(r) => {
                ranges.push(r);
                proof {
                    assert(ranges@ + lexical_ranges_from(src@, seeds@, i + 1)
                        =~= ranges@.drop_last() + (seq![r] + lexical_ranges_from(
                        src@,
                        seeds@,
                        i + 1,
                    )));
                }
            },
            None => {},
        }
        i += 1;
    }
    proof {
        assert(full =~= ranges@);
    }
    let expanded = expand_ranges_to_include_whitespace(src, ranges.as_slice());
    delete_chunks(src, expanded.as_slice())
}

} // verus!
