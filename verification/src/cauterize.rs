//! The pruning engine: turning resolved definitions into byte ranges,
//! deleting ranges from a source buffer, and the whitespace heuristics
//! that keep the surrounding formatting intact.

use vstd::prelude::*;

verus! {

use vstd::slice::slice_to_vec;
use crate::syntax::{SourceItem, Member, ItemKind, MemberKind, LineColSpan, ParseError};
use crate::syntax::{parse_source, parsed_items_of};
use crate::text::bytes_eq;
use crate::unused::{UnusedDiagnostic, UnusedDiagnosticKind};

/// A half-open byte range `[start, end)` inside a source buffer.
#[derive(Clone, Copy, Debug, PartialEq, Eq, Structural)]
pub struct ByteRange {
    pub start: usize,
    pub end: usize,
}

/// True when byte index `i` lies inside at least one of `ranges`.
pub open spec fn covered(ranges: Seq<ByteRange>, i: int) -> bool {
    exists|k: int| 0 <= k < ranges.len() && (#[trigger] ranges[k]).start <= i < ranges[k].end
}

/// The first `n` bytes of `s` with every covered index dropped.
pub open spec fn delete_upto(s: Seq<u8>, ranges: Seq<ByteRange>, n: int) -> Seq<u8>
    decreases n,
{
    if n <= 0 {
        Seq::empty()
    } else {
        let p = delete_upto(s, ranges, n - 1);
        if covered(ranges, n - 1) {
            p
        } else {
            p.push(s[n - 1])
        }
    }
}

/// The bytes of `s` whose indices no range covers, in their original order.
pub open spec fn delete_spec(s: Seq<u8>, ranges: Seq<ByteRange>) -> Seq<u8> {
    delete_upto(s, ranges, s.len() as int)
}

fn range_covers(ranges: &[ByteRange], i: usize) -> (r: bool)
    ensures
        r == covered(ranges@, i as int),
{
    let mut k: usize = 0;
    while k < ranges.len()
        invariant
            0 <= k <= ranges@.len(),
            forall|m: int| 0 <= m < k ==> !((#[trigger] ranges@[m]).start <= i < ranges@[m].end),
        decreases ranges@.len() - k,
    {
        if ranges[k].start <= i && i < ranges[k].end {
            return true;
        }
        k += 1;
    }
    false
}

/// Removes from `src` every byte whose index is covered by one of the given
/// ranges; all other bytes are kept in their original order.  Ranges may
/// overlap and may arrive in any order.
pub fn delete_chunks(src: &[u8], chunks_to_delete: &[ByteRange]) -> (r: Vec<u8>)
    ensures
        r@ == delete_spec(src@, chunks_to_delete@),
{
    let mut out: Vec<u8> = Vec::new();
    let mut i: usize = 0;
    while i < src.len()
        invariant
            0 <= i <= src@.len(),
            out@ == delete_upto(src@, chunks_to_delete@, i as int),
        decreases src@.len() - i,
    {
        if !range_covers(chunks_to_delete, i) {
            out.push(src[i]);
        }
        i += 1;
    }
    out
}

proof fn lemma_delete_upto_ext(s: Seq<u8>, rs1: Seq<ByteRange>, rs2: Seq<ByteRange>, n: int)
    requires
        forall|i: int| #[trigger] covered(rs1, i) == covered(rs2, i),
    ensures
        delete_upto(s, rs1, n) == delete_upto(s, rs2, n),
    decreases n,
{
    if n > 0 {
        lemma_delete_upto_ext(s, rs1, rs2, n - 1);
    }
}

/// The result of a deletion depends only on which byte indices are covered,
/// not on how the ranges happen to be listed.
pub proof fn lemma_delete_covers_ext(s: Seq<u8>, rs1: Seq<ByteRange>, rs2: Seq<ByteRange>)
    requires
        forall|i: int| #[trigger] covered(rs1, i) == covered(rs2, i),
    ensures
        delete_spec(s, rs1) == delete_spec(s, rs2),
{
    lemma_delete_upto_ext(s, rs1, rs2, s.len() as int);
}

/// Order-independence of deletion: two range lists that hold the same ranges,
/// in any order and with the same repetitions, delete exactly the same bytes.
pub proof fn lemma_delete_order_independent(s: Seq<u8>, rs1: Seq<ByteRange>, rs2: Seq<ByteRange>)
    requires
        rs1.to_multiset() == rs2.to_multiset(),
    ensures
        delete_spec(s, rs1) == delete_spec(s, rs2),
{
    broadcast use vstd::seq_lib::group_to_multiset_ensures;

    assert forall|i: int| #[trigger] covered(rs1, i) == covered(rs2, i) by {
        if covered(rs1, i) {
            let k = choose|k: int|
                0 <= k < rs1.len() && (#[trigger] rs1[k]).start <= i < rs1[k].end;
            assert(rs1.contains(rs1[k]));
            assert(rs2.to_multiset().count(rs1[k]) > 0);
            assert(rs2.contains(rs1[k]));
            let m = choose|m: int| 0 <= m < rs2.len() && rs2[m] == rs1[k];
            assert(0 <= m < rs2.len() && (rs2[m]).start <= i < rs2[m].end);
        }
        if covered(rs2, i) {
            let k = choose|k: int|
                0 <= k < rs2.len() && (#[trigger] rs2[k]).start <= i < rs2[k].end;
            assert(rs2.contains(rs2[k]));
            assert(rs1.to_multiset().count(rs2[k]) > 0);
            assert(rs1.contains(rs2[k]));
            let m = choose|m: int| 0 <= m < rs1.len() && rs1[m] == rs2[k];
            assert(0 <= m < rs1.len() && (rs1[m]).start <= i < rs1[m].end);
        }
    };
    lemma_delete_covers_ext(s, rs1, rs2);
}

/// Listing the same ranges twice over deletes the same bytes as listing them
/// once: deletion tolerates duplicated ranges.
pub proof fn lemma_delete_duplicates(s: Seq<u8>, rs: Seq<ByteRange>)
    ensures
        delete_spec(s, rs + rs) == delete_spec(s, rs),
{
    assert forall|i: int| #[trigger] covered(rs + rs, i) == covered(rs, i) by {
        if covered(rs + rs, i) {
            let k = choose|k: int|
                0 <= k < (rs + rs).len() && (#[trigger] (rs + rs)[k]).start <= i < (rs + rs)[k].end;
            if k < rs.len() {
                assert((rs + rs)[k] == rs[k]);
            } else {
                assert((rs + rs)[k] == rs[k - rs.len()]);
            }
        }
        if covered(rs, i) {
            let k = choose|k: int|
                0 <= k < rs.len() && (#[trigger] rs[k]).start <= i < rs[k].end;
            assert((rs + rs)[k] == rs[k]);
            assert(covered(rs + rs, i));
        }
    };
    lemma_delete_covers_ext(s, rs + rs, rs);
}

proof fn lemma_delete_upto_uncovered(s: Seq<u8>, rs: Seq<ByteRange>, n: int)
    requires
        0 <= n <= s.len(),
        forall|i: int| 0 <= i < n ==> !(#[trigger] covered(rs, i)),
    ensures
        delete_upto(s, rs, n) == s.take(n),
    decreases n,
{
    if n > 0 {
        lemma_delete_upto_uncovered(s, rs, n - 1);
        assert(s.take(n - 1).push(s[n - 1]) =~= s.take(n));
    } else {
        assert(delete_upto(s, rs, 0) =~= s.take(0));
    }
}

/// Deleting an empty range list returns the buffer unchanged.
pub proof fn lemma_delete_nothing(s: Seq<u8>)
    ensures
        delete_spec(s, Seq::<ByteRange>::empty()) == s,
{
    assert forall|i: int| 0 <= i < s.len() implies !(#[trigger] covered(
        Seq::<ByteRange>::empty(),
        i,
    )) by {
        assert(Seq::<ByteRange>::empty().len() == 0);
    }
    lemma_delete_upto_uncovered(s, Seq::<ByteRange>::empty(), s.len() as int);
    assert(s.take(s.len() as int) =~= s);
}

/// Idempotence of deletion: deleting the same range list a second time, from
/// the result of the first deletion, is a no-op, provided every covered index
/// lies beyond the bytes that survive the first deletion.
pub proof fn lemma_delete_idempotent(s: Seq<u8>, rs: Seq<ByteRange>)
    requires
        forall|i: int| 0 <= i < delete_spec(s, rs).len() ==> !(#[trigger] covered(rs, i)),
    ensures
        delete_spec(delete_spec(s, rs), rs) == delete_spec(s, rs),
{
    let s2 = delete_spec(s, rs);
    lemma_delete_upto_uncovered(s2, rs, s2.len() as int);
    assert(s2.take(s2.len() as int) =~= s2);
}

proof fn lemma_delete_upto_single(s: Seq<u8>, r: ByteRange, n: int)
    requires
        r.start <= r.end,
        0 <= n <= s.len(),
    ensures
        delete_upto(s, seq![r], n) == (if n <= r.start {
            s.take(n)
        } else if n <= r.end {
            s.take(r.start as int)
        } else {
            s.take(r.start as int) + s.subrange(r.end as int, n)
        }),
    decreases n,
{
    if n <= 0 {
        assert(delete_upto(s, seq![r], n) =~= s.take(n));
    } else {
        lemma_delete_upto_single(s, r, n - 1);
        assert forall|i: int| covered(seq![r], i) == (r.start <= i < r.end) by {
            if r.start <= i < r.end {
                assert(seq![r][0] == r);
            }
        }
        if n <= r.start {
            assert(s.take(n - 1).push(s[n - 1]) =~= s.take(n));
        } else if n <= r.end {
        } else if n == r.end + 1 {
            assert(s.take(r.start as int).push(s[n - 1]) =~= s.take(r.start as int) + s.subrange(
                r.end as int,
                n,
            ));
        } else {
            assert((s.take(r.start as int) + s.subrange(r.end as int, n - 1)).push(s[n - 1]) =~= s
                .take(r.start as int) + s.subrange(r.end as int, n));
        }
    }
}

/// Deleting a single range splits the buffer around it: exactly the bytes
/// before the range and the bytes after it survive, in order.
pub proof fn lemma_delete_single_range(s: Seq<u8>, r: ByteRange)
    requires
        r.start <= r.end <= s.len(),
    ensures
        delete_spec(s, seq![r]) == s.take(r.start as int) + s.skip(r.end as int),
{
    lemma_delete_upto_single(s, r, s.len() as int);
    if s.len() <= r.start {
        assert(s.take(s.len() as int) =~= s.take(r.start as int) + s.skip(r.end as int));
    } else if s.len() <= r.end {
        assert(s.take(r.start as int) =~= s.take(r.start as int) + s.skip(r.end as int));
    } else {
        assert(s.subrange(r.end as int, s.len() as int) =~= s.skip(r.end as int));
    }
}

/// ASCII whitespace, as the whitespace heuristics classify bytes
/// (space, tab, line feed, form feed, carriage return).
pub open spec fn is_ascii_ws(b: u8) -> bool {
    b == 32 || b == 9 || b == 10 || b == 12 || b == 13
}

/// Backward scan over the whitespace run that ends at index `j`: the cut
/// lands just after a line terminator inside the run, and absorbs nothing
/// (yielding `s.len()`) when no terminator adjoins the run.
pub open spec fn prefix_scan(s: Seq<u8>, j: int) -> int
    decreases j,
{
    if j <= 0 {
        s.len() as int
    } else if !is_ascii_ws(s[j - 1]) {
        s.len() as int
    } else if s[j - 1] == 10 {
        j
    } else {
        prefix_scan(s, j - 1)
    }
}

/// Where a deleted region should start, given the bytes `s` that precede it:
/// the start of the horizontal whitespace that follows the last line
/// terminator before the region, or `s.len()` when no terminator adjoins it.
pub open spec fn find_prefix_whitespace_spec(s: Seq<u8>) -> int {
    prefix_scan(s, s.len() as int)
}

/// Finds the position of the first whitespace byte that still belongs to the
/// deleted definition rather than to what precedes it: prefixing whitespace
/// on the same line is kept, the remainder of a preceding blank stretch after
/// a line terminator is absorbed.
pub fn find_prefix_whitespace(src: &[u8]) -> (r: usize)
    ensures
        r as int == find_prefix_whitespace_spec(src@),
        r <= src@.len(),
{
    let mut j: usize = src.len();
    while j > 0
        invariant
            0 <= j <= src@.len(),
            prefix_scan(src@, j as int) == find_prefix_whitespace_spec(src@),
        decreases j,
    {
        let b = src[j - 1];
        if !(b == 32 || b == 9 || b == 10 || b == 12 || b == 13) {
            return src.len();
        }
        if b == 10 {
            return j;
        }
        j -= 1;
    }
    src.len()
}

/// Forward scan from index `j`: horizontal whitespace (spaces and tabs) is
/// consumed, one line terminator is consumed and ends the scan, and any
/// other byte ends the scan unconsumed.
pub open spec fn suffix_scan(s: Seq<u8>, j: int) -> int
    decreases s.len() - j,
{
    if j < 0 || j >= s.len() {
        s.len() as int
    } else if s[j] == 32 || s[j] == 9 {
        suffix_scan(s, j + 1)
    } else if s[j] == 10 {
        j + 1
    } else {
        j
    }
}

/// Where a deleted region should end, given the bytes `s` that follow it:
/// trailing horizontal whitespace is absorbed, together with exactly one
/// line terminator when that whitespace runs up to one.
pub open spec fn find_suffix_whitespace_spec(s: Seq<u8>) -> int {
    suffix_scan(s, 0)
}

/// Finds the position of the first whitespace byte that no longer belongs to
/// the deleted definition: trailing horizontal whitespace is absorbed, plus
/// one line terminator if the line ends there.
pub fn find_suffix_whitespace(src: &[u8]) -> (r: usize)
    ensures
        r as int == find_suffix_whitespace_spec(src@),
        r <= src@.len(),
{
    let mut j: usize = 0;
    while j < src.len()
        invariant
            0 <= j <= src@.len(),
            suffix_scan(src@, j as int) == find_suffix_whitespace_spec(src@),
        decreases src@.len() - j,
    {
        if src[j] == 32 || src[j] == 9 {
            j += 1;
        } else if src[j] == 10 {
            return j + 1;
        } else {
            return j;
        }
    }
    src.len()
}

/// One range, widened by the whitespace rules: the start moves back over a
/// blank stretch that follows a line terminator, the end moves forward over
/// horizontal whitespace and at most one line terminator.
pub open spec fn expand_range_spec(s: Seq<u8>, r: ByteRange) -> ByteRange {
    ByteRange {
        start: find_prefix_whitespace_spec(s.take(r.start as int)) as usize,
        end: (r.end + find_suffix_whitespace_spec(s.skip(r.end as int))) as usize,
    }
}

/// Every range of `ranges`, widened by the whitespace rules.
pub open spec fn expand_all_spec(s: Seq<u8>, ranges: Seq<ByteRange>) -> Seq<ByteRange> {
    ranges.map_values(|r: ByteRange| expand_range_spec(s, r))
}

/// Widens each resolved range so that deleting it also removes the blank
/// space the definition would otherwise leave behind.
pub fn expand_ranges_to_include_whitespace(src: &[u8], ranges: &[ByteRange]) -> (r: Vec<
    ByteRange,
>)
    requires
        forall|i: int| 0 <= i < ranges@.len()
            ==> (#[trigger] ranges@[i]).start <= src@.len() && ranges@[i].end <= src@.len(),
    ensures
        r@ == expand_all_spec(src@, ranges@),
{
    let mut out: Vec<ByteRange> = Vec::new();
    let mut i: usize = 0;
    while i < ranges.len()
        invariant
            0 <= i <= ranges@.len(),
            forall|k: int| 0 <= k < ranges@.len()
                ==> (#[trigger] ranges@[k]).start <= src@.len() && ranges@[k].end <= src@.len(),
            out@ == expand_all_spec(src@, ranges@.take(i as int)),
        decreases ranges@.len() - i,
    {
        let range = ranges[i];
        let before = &src[0..range.start];
        let after = &src[range.end..src.len()];
        let new_start = find_prefix_whitespace(before);
        let suffix_len = find_suffix_whitespace(after);
        let new_end = range.end + suffix_len;
        out.push(ByteRange { start: new_start, end: new_end });
        proof {
            assert(before@ =~= src@.take(range.start as int));
            assert(after@ =~= src@.skip(range.end as int));
            assert(out@ =~= expand_all_spec(src@, ranges@.take(i as int)).push(
                expand_range_spec(src@, ranges@[i as int]),
            ));
            assert(expand_all_spec(src@, ranges@.take(i + 1)) =~= expand_all_spec(
                src@,
                ranges@.take(i as int),
            ).push(expand_range_spec(src@, ranges@[i as int])));
        }
        i += 1;
    }
    proof {
        assert(ranges@.take(ranges@.len() as int) =~= ranges@);
    }
    out
}

/// How many line terminators `s` holds; the buffer's line count is one more.
pub open spec fn newline_count(s: Seq<u8>) -> int
    decreases s.len(),
{
    if s.len() == 0 {
        0
    } else {
        newline_count(s.drop_last()) + if s.last() == 10 {
            1int
        } else {
            0
        }
    }
}

proof fn lemma_newline_count_concat(a: Seq<u8>, b: Seq<u8>)
    ensures
        newline_count(a + b) == newline_count(a) + newline_count(b),
    decreases b.len(),
{
    if b.len() == 0 {
        assert(a + b =~= a);
    } else {
        lemma_newline_count_concat(a, b.drop_last());
        assert((a + b).drop_last() =~= a + b.drop_last());
        assert((a + b).last() == b.last());
    }
}

proof fn lemma_newline_count_zero(t: Seq<u8>)
    requires
        forall|i: int| 0 <= i < t.len() ==> t[i] != 10,
    ensures
        newline_count(t) == 0,
    decreases t.len(),
{
    if t.len() > 0 {
        lemma_newline_count_zero(t.drop_last());
    }
}

proof fn lemma_prefix_scan_absorbs_no_terminator(s: Seq<u8>, j: int)
    requires
        0 <= j <= s.len(),
    ensures
        ({
            let p = prefix_scan(s, j);
            p == s.len() || (0 <= p <= j && forall|k: int|
                p <= k < j ==> is_ascii_ws(#[trigger] s[k]) && s[k] != 10)
        }),
    decreases j,
{
    if j > 0 && is_ascii_ws(s[j - 1]) && s[j - 1] != 10 {
        lemma_prefix_scan_absorbs_no_terminator(s, j - 1);
    }
}

proof fn lemma_suffix_scan_exact(sub: Seq<u8>, q: int, j: int)
    requires
        0 <= j <= q < sub.len(),
        forall|i: int| 0 <= i < q ==> sub[i] == 32 || sub[i] == 9,
        sub[q] == 10,
    ensures
        suffix_scan(sub, j) == q + 1,
    decreases q - j,
{
    if j < q {
        lemma_suffix_scan_exact(sub, q, j + 1);
    }
}

proof fn lemma_suffix_scan_stops(sub: Seq<u8>, q: int, j: int)
    requires
        0 <= j <= q <= sub.len(),
        forall|i: int| 0 <= i < q ==> sub[i] == 32 || sub[i] == 9,
        q < sub.len() ==> sub[q] != 32 && sub[q] != 9 && sub[q] != 10,
    ensures
        suffix_scan(sub, j) == q,
    decreases q - j,
{
    if j < q {
        lemma_suffix_scan_stops(sub, q, j + 1);
    }
}

/// Whitespace-neutral deletion: a definition that stands alone on its line —
/// its resolved range holds no line terminator, and only horizontal
/// whitespace follows it up to the line's terminator — is deleted together
/// with exactly that line's terminator, once the range is widened by the
/// whitespace rules: the line count drops by exactly one.
pub proof fn lemma_whole_line_deletion(s: Seq<u8>, r: ByteRange, q: int)
    requires
        s.len() <= usize::MAX,
        r.start <= r.end,
        0 <= q,
        r.end + q < s.len(),
        forall|i: int| r.start <= i < r.end ==> s[i] != 10,
        forall|i: int| r.end <= i < r.end + q ==> s[i] == 32 || s[i] == 9,
        s[r.end + q] == 10,
    ensures
        newline_count(delete_spec(s, seq![expand_range_spec(s, r)])) == newline_count(s) - 1,
{
    let e = expand_range_spec(s, r);
    let before = s.take(r.start as int);
    lemma_prefix_scan_absorbs_no_terminator(before, before.len() as int);
    let p = find_prefix_whitespace_spec(before);
    assert(0 <= p <= r.start);
    let sub = s.skip(r.end as int);
    lemma_suffix_scan_exact(sub, q, 0);
    assert(e.start == p && e.end == r.end + q + 1);
    lemma_delete_single_range(s, e);
    let middle = s.subrange(e.start as int, e.end as int);
    assert forall|i: int| 0 <= i < middle.len() - 1 implies middle[i] != 10 by {
        assert(middle[i] == s[e.start + i]);
        if e.start + i < r.start {
            assert(before[e.start + i] == s[e.start + i]);
        } else if e.start + i >= r.end {
            assert(s[e.start + i] == 32 || s[e.start + i] == 9);
        }
    }
    assert(middle.last() == s[r.end + q]);
    lemma_newline_count_zero(middle.drop_last());
    assert(newline_count(middle) == 1);
    assert(s =~= (s.take(e.start as int) + middle) + s.skip(e.end as int));
    lemma_newline_count_concat(s.take(e.start as int) + middle, s.skip(e.end as int));
    lemma_newline_count_concat(s.take(e.start as int), middle);
    lemma_newline_count_concat(s.take(e.start as int), s.skip(e.end as int));
}

/// Whitespace-neutral deletion on a shared line: a definition preceded by a
/// non-whitespace byte, whose trailing horizontal whitespace runs up to
/// another token rather than a line terminator, is deleted together with
/// exactly that whitespace: the bytes before the definition and the bytes
/// from the next token on survive byte-for-byte, so the spacing between the
/// remaining definitions is untouched.
pub proof fn lemma_packed_line_deletion(s: Seq<u8>, r: ByteRange, q: int)
    requires
        s.len() <= usize::MAX,
        0 < r.start <= r.end,
        0 <= q,
        r.end + q <= s.len(),
        !is_ascii_ws(s[r.start - 1]),
        forall|i: int| r.end <= i < r.end + q ==> s[i] == 32 || s[i] == 9,
        r.end + q < s.len() ==> s[r.end + q] != 32 && s[r.end + q] != 9 && s[r.end + q] != 10,
    ensures
        delete_spec(s, seq![expand_range_spec(s, r)]) == s.take(r.start as int) + s.skip(
            r.end + q,
        ),
{
    let e = expand_range_spec(s, r);
    let before = s.take(r.start as int);
    assert(!is_ascii_ws(before[before.len() - 1]));
    assert(find_prefix_whitespace_spec(before) == r.start);
    let sub = s.skip(r.end as int);
    lemma_suffix_scan_stops(sub, q, 0);
    assert(e.start == r.start && e.end == r.end + q);
    lemma_delete_single_range(s, e);
}

/// The byte offset at which each line of `s` starts: offset 0 for the first
/// line, then one entry just past every line terminator.
pub open spec fn line_offsets_upto(s: Seq<u8>, n: int) -> Seq<usize>
    decreases n,
{
    if n <= 0 {
        seq![0usize]
    } else {
        let p = line_offsets_upto(s, n - 1);
        if s[n - 1] == 10 {
            p.push(n as usize)
        } else {
            p
        }
    }
}

/// The line-start table of the whole buffer.
pub open spec fn line_offsets_spec(s: Seq<u8>) -> Seq<usize> {
    line_offsets_upto(s, s.len() as int)
}

/// Creates a table of the byte offsets where lines begin, used to translate
/// line/column positions into exact byte offsets.
pub fn line_offsets(bytes: &[u8]) -> (r: Vec<usize>)
    ensures
        r@ == line_offsets_spec(bytes@),
{
    let mut out: Vec<usize> = Vec::new();
    out.push(0);
    let mut i: usize = 0;
    while i < bytes.len()
        invariant
            0 <= i <= bytes@.len(),
            out@ == line_offsets_upto(bytes@, i as int),
        decreases bytes@.len() - i,
    {
        if bytes[i] == 10 {
            out.push(i + 1);
        }
        i += 1;
    }
    out
}

/// Whether a top-level item of kind `ik` is what a selector of kind `kind`
/// names.  Implementation and external blocks never match directly; their
/// members are searched instead.
pub open spec fn top_kind_matches(kind: UnusedDiagnosticKind, ik: ItemKind) -> bool {
    match ik {
        ItemKind::Const => kind == UnusedDiagnosticKind::Constant,
        ItemKind::Enum => kind == UnusedDiagnosticKind::Enum,
        ItemKind::Fn => kind == UnusedDiagnosticKind::Function,
        ItemKind::Macro => kind == UnusedDiagnosticKind::MacroDefinition,
        ItemKind::Static => kind == UnusedDiagnosticKind::Static,
        ItemKind::Struct => kind == UnusedDiagnosticKind::Struct,
        ItemKind::TypeAlias => kind == UnusedDiagnosticKind::TypeAlias,
        ItemKind::Union => kind == UnusedDiagnosticKind::Union,
        _ => false,
    }
}

/// Whether a member of kind `mk`, nested in a block of kind `parent`, is
/// what a selector of kind `kind` names.
pub open spec fn member_kind_matches(
    kind: UnusedDiagnosticKind,
    parent: ItemKind,
    mk: MemberKind,
) -> bool {
    if parent == ItemKind::ForeignMod {
        match mk {
            MemberKind::Fn => kind == UnusedDiagnosticKind::Function,
            MemberKind::Static => kind == UnusedDiagnosticKind::Static,
            MemberKind::Type => kind == UnusedDiagnosticKind::TypeAlias,
            _ => false,
        }
    } else if parent == ItemKind::Impl {
        match mk {
            MemberKind::Const => kind == UnusedDiagnosticKind::Constant,
            MemberKind::Fn => kind == UnusedDiagnosticKind::AssociatedFunction,
            MemberKind::Type => kind == UnusedDiagnosticKind::TypeAlias,
            _ => false,
        }
    } else {
        false
    }
}

/// Whether a possibly missing name equals the selector's identifier.
pub open spec fn ident_is(oid: Option<Vec<u8>>, ident: Seq<u8>) -> bool {
    match oid {
        Some(v) => v@ == ident,
        None => false,
    }
}

/// Whether one member answers to the selector.
pub open spec fn member_matches(
    kind: UnusedDiagnosticKind,
    parent: ItemKind,
    m: Member,
    ident: Seq<u8>,
) -> bool {
    member_kind_matches(kind, parent, m.kind) && ident_is(m.ident, ident)
}

/// The span of the first member at or after position `i` that answers to the
/// selector.
pub open spec fn first_member_span(
    kind: UnusedDiagnosticKind,
    parent: ItemKind,
    members: Seq<Member>,
    ident: Seq<u8>,
    i: int,
) -> Option<LineColSpan>
    decreases members.len() - i,
{
    if i < 0 || i >= members.len() {
        None
    } else if member_matches(kind, parent, members[i], ident) {
        Some(members[i].span)
    } else {
        first_member_span(kind, parent, members, ident, i + 1)
    }
}

/// The span one top-level item contributes for the selector: its own span
/// when it matches directly, the first matching member's span for
/// implementation and external blocks, and nothing otherwise.
pub open spec fn item_span_for(
    kind: UnusedDiagnosticKind,
    item: SourceItem,
    ident: Seq<u8>,
) -> Option<LineColSpan> {
    if item.kind == ItemKind::Impl || item.kind == ItemKind::ForeignMod {
        first_member_span(kind, item.kind, item.members@, ident, 0)
    } else if top_kind_matches(kind, item.kind) && ident_is(item.ident, ident) {
        Some(item.span)
    } else {
        None
    }
}

/// The span of the first item at or after position `i` that answers to the
/// selector, or `None` when nothing in the buffer does: resolution fails
/// closed.
pub open spec fn resolve_selector(
    items: Seq<SourceItem>,
    kind: UnusedDiagnosticKind,
    ident: Seq<u8>,
    i: int,
) -> Option<LineColSpan>
    decreases items.len() - i,
{
    if i < 0 || i >= items.len() {
        None
    } else {
        match item_span_for(kind, items[i], ident) {
            Some(sp) => Some(sp),
            None => resolve_selector(items, kind, ident, i + 1),
        }
    }
}

/// Resolution fails closed: a selector resolves to no span exactly when no
/// item — and no member of an implementation or external block — carries
/// both the selector's kind and its identifier.
pub proof fn lemma_resolution_fails_closed(
    items: Seq<SourceItem>,
    kind: UnusedDiagnosticKind,
    ident: Seq<u8>,
)
    ensures
        resolve_selector(items, kind, ident, 0) is None <==> (forall|i: int|
            0 <= i < items.len() ==> item_span_for(kind, #[trigger] items[i], ident) is None),
{
    lemma_resolution_fails_closed_from(items, kind, ident, 0);
}

proof fn lemma_resolution_fails_closed_from(
    items: Seq<SourceItem>,
    kind: UnusedDiagnosticKind,
    ident: Seq<u8>,
    i: int,
)
    requires
        0 <= i <= items.len(),
    ensures
        resolve_selector(items, kind, ident, i) is None <==> (forall|j: int|
            i <= j < items.len() ==> item_span_for(kind, #[trigger] items[j], ident) is None),
    decreases items.len() - i,
{
    if i < items.len() {
        lemma_resolution_fails_closed_from(items, kind, ident, i + 1);
    }
}

/// The byte offset of a 1-based line and 0-based column in the line table,
/// when the line exists and the offset fits the machine.
pub open spec fn lc_offset(offsets: Seq<usize>, line: int, col: int) -> Option<int> {
    if 1 <= line <= offsets.len() && offsets[line - 1] + col <= usize::MAX {
        Some(offsets[line - 1] + col)
    } else {
        None
    }
}

/// A line/column span translated to a byte range of a buffer of length
/// `buf_len`; `None` when the span does not fit the buffer.
pub open spec fn span_to_range(offsets: Seq<usize>, sp: LineColSpan, buf_len: int) -> Option<
    ByteRange,
> {
    match lc_offset(offsets, sp.start_line as int, sp.start_col as int) {
        Some(s) => match lc_offset(offsets, sp.end_line as int, sp.end_col as int) {
            Some(e) => if s <= buf_len && e <= buf_len {
                Some(ByteRange { start: s as usize, end: e as usize })
            } else {
                None
            },
            None => None,
        },
        None => None,
    }
}

/// The byte ranges that the selectors at positions `i..` resolve to, in
/// selector order; selectors that resolve to nothing, and spans that do not
/// fit the buffer, contribute nothing.
pub open spec fn resolve_ranges_from(
    items: Seq<SourceItem>,
    offsets: Seq<usize>,
    sels: Seq<(UnusedDiagnosticKind, Vec<u8>)>,
    buf_len: int,
    i: int,
) -> Seq<ByteRange>
    decreases sels.len() - i,
{
    if i < 0 || i >= sels.len() {
        Seq::empty()
    } else {
        let rest = resolve_ranges_from(items, offsets, sels, buf_len, i + 1);
        match resolve_selector(items, sels[i].0, sels[i].1@, 0) {
            Some(sp) => match span_to_range(offsets, sp, buf_len) {
                Some(r) => seq![r] + rest,
                None => rest,
            },
            None => rest,
        }
    }
}

/// All byte ranges the selectors resolve to.
pub open spec fn resolve_ranges_spec(
    items: Seq<SourceItem>,
    offsets: Seq<usize>,
    sels: Seq<(UnusedDiagnosticKind, Vec<u8>)>,
    buf_len: int,
) -> Seq<ByteRange> {
    resolve_ranges_from(items, offsets, sels, buf_len, 0)
}

/// Every resolved range lies within the buffer.
proof fn lemma_resolved_ranges_bounded(
    items: Seq<SourceItem>,
    offsets: Seq<usize>,
    sels: Seq<(UnusedDiagnosticKind, Vec<u8>)>,
    buf_len: int,
    i: int,
)
    ensures
        forall|k: int|
            0 <= k < resolve_ranges_from(items, offsets, sels, buf_len, i).len() ==> {
                let r = #[trigger] resolve_ranges_from(items, offsets, sels, buf_len, i)[k];
                r.start <= buf_len && r.end <= buf_len
            },
    decreases sels.len() - i,
{
    if 0 <= i < sels.len() {
        lemma_resolved_ranges_bounded(items, offsets, sels, buf_len, i + 1);
        let rest = resolve_ranges_from(items, offsets, sels, buf_len, i + 1);
        let cur = resolve_ranges_from(items, offsets, sels, buf_len, i);
        match resolve_selector(items, sels[i].0, sels[i].1@, 0) {
            Some(sp) => {
                match span_to_range(offsets, sp, buf_len) {
                    Some(r) => {
                        assert(cur == seq![r] + rest);
                        assert forall|k: int| 0 <= k < cur.len() implies ((#[trigger] cur[k]).start
                            <= buf_len && cur[k].end <= buf_len) by {
                            if k == 0 {
                                assert(cur[0] == r);
                            } else {
                                assert(cur[k] == rest[k - 1]);
                            }
                        }
                    },
                    None => {},
                }
            },
            None => {},
        }
    }
}

fn match_top_kind(kind: &UnusedDiagnosticKind, ik: &ItemKind) -> (r: bool)
    ensures
        r == top_kind_matches(*kind, *ik),
{
    match ik {
        ItemKind::Const => matches!(kind, UnusedDiagnosticKind::Constant),
        ItemKind::Enum => matches!(kind, UnusedDiagnosticKind::Enum),
        ItemKind::Fn => matches!(kind, UnusedDiagnosticKind::Function),
        ItemKind::Macro => matches!(kind, UnusedDiagnosticKind::MacroDefinition),
        ItemKind::Static => matches!(kind, UnusedDiagnosticKind::Static),
        ItemKind::Struct => matches!(kind, UnusedDiagnosticKind::Struct),
        ItemKind::TypeAlias => matches!(kind, UnusedDiagnosticKind::TypeAlias),
        ItemKind::Union => matches!(kind, UnusedDiagnosticKind::Union),
        _ => false,
    }
}

fn match_member_kind(kind: &UnusedDiagnosticKind, parent: &ItemKind, mk: &MemberKind) -> (r: bool)
    ensures
        r == member_kind_matches(*kind, *parent, *mk),
{
    if matches!(parent, ItemKind::ForeignMod) {
        match mk {
            MemberKind::Fn => matches!(kind, UnusedDiagnosticKind::Function),
            MemberKind::Static => matches!(kind, UnusedDiagnosticKind::Static),
            MemberKind::Type => matches!(kind, UnusedDiagnosticKind::TypeAlias),
            _ => false,
        }
    } else if matches!(parent, ItemKind::Impl) {
        match mk {
            MemberKind::Const => matches!(kind, UnusedDiagnosticKind::Constant),
            MemberKind::Fn => matches!(kind, UnusedDiagnosticKind::AssociatedFunction),
            MemberKind::Type => matches!(kind, UnusedDiagnosticKind::TypeAlias),
            _ => false,
        }
    } else {
        false
    }
}

fn match_ident(oid: &Option<Vec<u8>>, ident: &[u8]) -> (r: bool)
    ensures
        r == ident_is(*oid, ident@),
{
    match oid {
        Some(v) => bytes_eq(v.as_slice(), ident),
        None => false,
    }
}

fn find_member_span(
    kind: &UnusedDiagnosticKind,
    parent: &ItemKind,
    members: &Vec<Member>,
    ident: &[u8],
) -> (r: Option<LineColSpan>)
    ensures
        r == first_member_span(*kind, *parent, members@, ident@, 0),
{
    let mut i: usize = 0;
    while i < members.len()
        invariant
            0 <= i <= members@.len(),
            first_member_span(*kind, *parent, members@, ident@, 0) == first_member_span(
                *kind,
                *parent,
                members@,
                ident@,
                i as int,
            ),
        decreases members@.len() - i,
    {
        let m = &members[i];
        if match_member_kind(kind, parent, &m.kind) && match_ident(&m.ident, ident) {
            return Some(m.span);
        }
        i += 1;
    }
    None
}

fn resolve_one(
    items: &Vec<SourceItem>,
    kind: &UnusedDiagnosticKind,
    ident: &[u8],
) -> (r: Option<LineColSpan>)
    ensures
        r == resolve_selector(items@, *kind, ident@, 0),
{
    let mut i: usize = 0;
    while i < items.len()
        invariant
            0 <= i <= items@.len(),
            resolve_selector(items@, *kind, ident@, 0) == resolve_selector(
                items@,
                *kind,
                ident@,
                i as int,
            ),
        decreases items@.len() - i,
    {
        let item = &items[i];
        if matches!(item.kind, ItemKind::Impl) || matches!(item.kind, ItemKind::ForeignMod) {
            let found = find_member_span(kind, &item.kind, &item.members, ident);
            if found.is_some() {
                return found;
            }
        } else if match_top_kind(kind, &item.kind) && match_ident(&item.ident, ident) {
            return Some(item.span);
        }
        i += 1;
    }
    None
}

fn to_range(offsets: &Vec<usize>, sp: &LineColSpan, buf_len: usize) -> (r: Option<ByteRange>)
    ensures
        r == span_to_range(offsets@, *sp, buf_len as int),
{
    if sp.start_line < 1 || sp.start_line > offsets.len() {
        return None;
    }
    if sp.end_line < 1 || sp.end_line > offsets.len() {
        return None;
    }
    let so = offsets[sp.start_line - 1];
    let eo = offsets[sp.end_line - 1];
    if sp.start_col > usize::MAX - so {
        return None;
    }
    if sp.end_col > usize::MAX - eo {
        return None;
    }
    let s = so + sp.start_col;
    let e = eo + sp.end_col;
    if s > buf_len || e > buf_len {
        return None;
    }
    Some(ByteRange { start: s, end: e })
}

/// Resolves one `(kind, identifier)` selector against the parsed items: the
/// byte range of the first definition that carries both, when its span fits
/// the buffer.
pub fn resolve_named(
    items: &Vec<SourceItem>,
    offsets: &Vec<usize>,
    kind: &UnusedDiagnosticKind,
    ident: &[u8],
    buf_len: usize,
) -> (r: Option<ByteRange>)
    ensures
        r == (match resolve_selector(items@, *kind, ident@, 0) {
            Some(sp) => span_to_range(offsets@, sp, buf_len as int),
            None => None::<ByteRange>,
        }),
{
    match resolve_one(items, kind, ident) {
        Some(sp) => to_range(offsets, &sp, buf_len),
        None => None,
    }
}

/// Resolves each `(kind, identifier)` selector against the parsed items,
/// yielding one byte range per selector that names an existing definition.
pub fn resolve_ranges(
    items: &Vec<SourceItem>,
    offsets: &Vec<usize>,
    selectors: &Vec<(UnusedDiagnosticKind, Vec<u8>)>,
    buf_len: usize,
) -> (r: Vec<ByteRange>)
    ensures
        r@ == resolve_ranges_spec(items@, offsets@, selectors@, buf_len as int),
        forall|k: int| 0 <= k < r@.len() ==> (#[trigger] r@[k]).start <= buf_len && r@[k].end
            <= buf_len,
{
    let mut out: Vec<ByteRange> = Vec::new();
    let ghost full = resolve_ranges_spec(items@, offsets@, selectors@, buf_len as int);
    let mut i: usize = 0;
    while i < selectors.len()
        invariant
            0 <= i <= selectors@.len(),
            full == resolve_ranges_spec(items@, offsets@, selectors@, buf_len as int),
            full == out@ + resolve_ranges_from(
                items@,
                offsets@,
                selectors@,
                buf_len as int,
                i as int,
            ),
        decreases selectors@.len() - i,
    {
        let sel = &selectors[i];
        match resolve_one(items, &sel.0, sel.1.as_slice()) {
            Some(sp) => {
                match to_range(offsets, &sp, buf_len) {
                    Some(r) => {
                        out.push(r);
                        proof {
                            assert(out@ + resolve_ranges_from(
                                items@,
                                offsets@,
                                selectors@,
                                buf_len as int,
                                i + 1,
                            ) =~= out@.drop_last() + (seq![r] + resolve_ranges_from(
                                items@,
                                offsets@,
                                selectors@,
                                buf_len as int,
                                i + 1,
                            )));
                        }
                    },
                    None => {},
                }
            },
            None => {},
        }
        i += 1;
    }
    proof {
        assert(full =~= out@);
        lemma_resolved_ranges_bounded(items@, offsets@, selectors@, buf_len as int, 0);
    }
    out
}

/// Turns a list of `(kind, identifier)` selectors into the byte ranges of
/// the definitions they name, by parsing the buffer and walking its items;
/// fails exactly when the buffer does not parse.
pub fn diagnostics_to_ranges(src: &[u8], idents: &Vec<(UnusedDiagnosticKind, Vec<u8>)>) -> (r:
    Result<Vec<ByteRange>, ParseError>)
    ensures
        r is Ok <==> parsed_items_of(src@) is Some,
        r matches Ok(v) ==> (parsed_items_of(src@) matches Some(items) && v@
            == resolve_ranges_spec(items, line_offsets_spec(src@), idents@, src@.len() as int)),
{
    let items = match parse_source(src) {
        Ok(items) => items,
        Err(e) => {
            return Err(e);
        },
    };
    let offsets = line_offsets(src);
    let ranges = resolve_ranges(&items, &offsets, idents, src.len());
    Ok(ranges)
}

/// What deleting the given selectors means, once the parse of `s` has
/// produced the item records `items`: resolve, widen with the whitespace
/// rules, and delete.
pub open spec fn rust_delete_spec(
    s: Seq<u8>,
    items: Seq<SourceItem>,
    sels: Seq<(UnusedDiagnosticKind, Vec<u8>)>,
) -> Seq<u8> {
    delete_spec(
        s,
        expand_all_spec(
            s,
            resolve_ranges_spec(items, line_offsets_spec(s), sels, s.len() as int),
        ),
    )
}

proof fn lemma_unmatched_selectors_resolve_nothing(
    items: Seq<SourceItem>,
    offsets: Seq<usize>,
    sels: Seq<(UnusedDiagnosticKind, Vec<u8>)>,
    buf_len: int,
    i: int,
)
    requires
        forall|k: int| 0 <= k < sels.len() ==> resolve_selector(
            items,
            (#[trigger] sels[k]).0,
            sels[k].1@,
            0,
        ) is None,
    ensures
        resolve_ranges_from(items, offsets, sels, buf_len, i) == Seq::<ByteRange>::empty(),
    decreases sels.len() - i,
{
    if 0 <= i < sels.len() {
        lemma_unmatched_selectors_resolve_nothing(items, offsets, sels, buf_len, i + 1);
    }
}

/// Idempotence of deletion, at selector level: deleting selectors from a
/// buffer in whose item records no definition answers to them is a no-op.
/// After a successful deletion the named definitions are gone, so repeating
/// the same deletion on the output — whose reparse no longer holds them —
/// changes nothing.
pub proof fn lemma_selector_idempotence(
    s: Seq<u8>,
    items: Seq<SourceItem>,
    sels: Seq<(UnusedDiagnosticKind, Vec<u8>)>,
)
    requires
        forall|k: int| 0 <= k < sels.len() ==> resolve_selector(
            items,
            (#[trigger] sels[k]).0,
            sels[k].1@,
            0,
        ) is None,
    ensures
        rust_delete_spec(s, items, sels) == s,
{
    lemma_unmatched_selectors_resolve_nothing(
        items,
        line_offsets_spec(s),
        sels,
        s.len() as int,
        0,
    );
    assert(expand_all_spec(s, Seq::<ByteRange>::empty()) =~= Seq::<ByteRange>::empty());
    lemma_delete_nothing(s);
}

/// Deletes the definitions the selectors name from a source buffer: the
/// buffer is parsed, each selector is resolved to the named definition's
/// byte range, ranges are widened by the whitespace rules, and the covered
/// bytes are removed.  Fails exactly when the buffer does not parse.  With
/// no selectors, a buffer that parses comes back unchanged.
pub fn rust_delete(src: &[u8], diagnostics: &Vec<(UnusedDiagnosticKind, Vec<u8>)>) -> (r: Result<
    Vec<u8>,
    ParseError,
>)
    ensures
        r is Ok <==> parsed_items_of(src@) is Some,
        r matches Ok(out) ==> (parsed_items_of(src@) matches Some(items) && out@
            == rust_delete_spec(src@, items, diagnostics@)),
        diagnostics@.len() == 0 ==> (r matches Ok(out) ==> out@ == src@),
{
    let items = match parse_source(src) {
        Ok(items) => items,
        Err(e) => {
            return Err(e);
        },
    };
    let offsets = line_offsets(src);
    let ranges = resolve_ranges(&items, &offsets, diagnostics, src.len());
    let expanded = expand_ranges_to_include_whitespace(src, ranges.as_slice());
    let out = delete_chunks(src, expanded.as_slice());
    proof {
        assert(out@ == rust_delete_spec(src@, items@, diagnostics@));
        if diagnostics@.len() == 0 {
            assert(resolve_ranges_spec(
                items@,
                line_offsets_spec(src@),
                diagnostics@,
                src@.len() as int,
            ) =~= Seq::<ByteRange>::empty());
            assert(expand_all_spec(src@, Seq::<ByteRange>::empty()) =~= Seq::<
                ByteRange,
            >::empty());
            lemma_delete_nothing(src@);
        }
    }
    Ok(out)
}

/// A degenerate block the cleanup pass removes: an implementation block with
/// no members, no attached attributes and no named trait, or an external
/// block with no members and no attached attributes.
pub open spec fn removable_block(item: SourceItem) -> bool {
    ||| (item.kind == ItemKind::ForeignMod && item.members@.len() == 0 && !item.has_attrs)
    ||| (item.kind == ItemKind::Impl && item.members@.len() == 0 && !item.has_attrs
        && !item.has_trait)
}

/// The byte ranges of the removable blocks among the items at positions
/// `i..`, in item order.
pub open spec fn empty_block_ranges(
    items: Seq<SourceItem>,
    offsets: Seq<usize>,
    buf_len: int,
    i: int,
) -> Seq<ByteRange>
    decreases items.len() - i,
{
    if i < 0 || i >= items.len() {
        Seq::empty()
    } else {
        let rest = empty_block_ranges(items, offsets, buf_len, i + 1);
        if removable_block(items[i]) {
            match span_to_range(offsets, items[i].span, buf_len) {
                Some(r) => seq![r] + rest,
                None => rest,
            }
        } else {
            rest
        }
    }
}

/// What the cleanup pass does to `s`, once its parse has produced `items`:
/// the removable blocks' spans are deleted, without whitespace widening.
pub open spec fn remove_empty_blocks_spec(s: Seq<u8>, items: Seq<SourceItem>) -> Seq<u8> {
    delete_spec(s, empty_block_ranges(items, line_offsets_spec(s), s.len() as int, 0))
}

proof fn lemma_empty_block_ranges_none(
    items: Seq<SourceItem>,
    offsets: Seq<usize>,
    buf_len: int,
    i: int,
)
    requires
        forall|k: int| 0 <= k < items.len() ==> !removable_block(#[trigger] items[k]),
    ensures
        empty_block_ranges(items, offsets, buf_len, i) == Seq::<ByteRange>::empty(),
    decreases items.len() - i,
{
    if 0 <= i < items.len() {
        lemma_empty_block_ranges_none(items, offsets, buf_len, i + 1);
    }
}

/// Round-trip safety of the cleanup pass: on a buffer whose items hold no
/// removable block, the cleanup deletes nothing.  Together with the
/// empty-selector clause of `rust_delete`, the whole pipeline returns such a
/// buffer unchanged when no selector is given.
pub proof fn lemma_cleanup_round_trip(s: Seq<u8>, items: Seq<SourceItem>)
    requires
        forall|k: int| 0 <= k < items.len() ==> !removable_block(#[trigger] items[k]),
    ensures
        remove_empty_blocks_spec(s, items) == s,
{
    lemma_empty_block_ranges_none(items, line_offsets_spec(s), s.len() as int, 0);
    lemma_delete_nothing(s);
}

fn removable_block_exec(item: &SourceItem) -> (r: bool)
    ensures
        r == removable_block(*item),
{
    (matches!(item.kind, ItemKind::ForeignMod) && item.members.len() == 0 && !item.has_attrs) || (
    matches!(item.kind, ItemKind::Impl) && item.members.len() == 0 && !item.has_attrs
        && !item.has_trait)
}

/// The cleanup pass: reparses a buffer that deletion has produced and
/// removes the implementation and external blocks the deletion left empty,
/// except those that carry attributes or implement a named trait.  Fails
/// exactly when the buffer does not parse — deletion must then not be
/// committed.
pub fn remove_empty_blocks(bytes: &[u8]) -> (r: Result<Vec<u8>, ParseError>)
    ensures
        r is Ok <==> parsed_items_of(bytes@) is Some,
        r matches Ok(out) ==> (parsed_items_of(bytes@) matches Some(items) && out@
            == remove_empty_blocks_spec(bytes@, items)),
{
    let items = match parse_source(bytes) {
        Ok(items) => items,
        Err(e) => {
            return Err(e);
        },
    };
    let offsets = line_offsets(bytes);
    let mut spans: Vec<ByteRange> = Vec::new();
    let ghost full = empty_block_ranges(items@, offsets@, bytes@.len() as int, 0);
    let mut i: usize = 0;
    while i < items.len()
        invariant
            0 <= i <= items@.len(),
            offsets@ == line_offsets_spec(bytes@),
            full == empty_block_ranges(items@, offsets@, bytes@.len() as int, 0),
            full == spans@ + empty_block_ranges(items@, offsets@, bytes@.len() as int, i as int),
        decreases items@.len() - i,
    {
        let item = &items[i];
        if removable_block_exec(item) {
            match to_range(&offsets, &item.span, bytes.len()) {
                Some(r) => {
                    spans.push(r);
                    proof {
                        assert(spans@ + empty_block_ranges(
                            items@,
                            offsets@,
                            bytes@.len() as int,
                            i + 1,
                        ) =~= spans@.drop_last() + (seq![r] + empty_block_ranges(
                            items@,
                            offsets@,
                            bytes@.len() as int,
                            i + 1,
                        )));
                    }
                },
                None => {},
            }
        }
        i += 1;
    }
    proof {
        assert(full =~= spans@);
    }
    let out = delete_chunks(bytes, spans.as_slice());
    proof {
        assert(out@ == remove_empty_blocks_spec(bytes@, items@));
    }
    Ok(out)
}

/// What the whole per-buffer pipeline yields: the buffer's parse drives the
/// deletion, the result is reparsed, and that reparse drives the cleanup;
/// `None` when either parse fails.
pub open spec fn process_buffer_spec(
    s: Seq<u8>,
    sels: Seq<(UnusedDiagnosticKind, Vec<u8>)>,
) -> Option<Seq<u8>> {
    match parsed_items_of(s) {
        Some(items1) => {
            let deleted = rust_delete_spec(s, items1, sels);
            match parsed_items_of(deleted) {
                Some(items2) => Some(remove_empty_blocks_spec(deleted, items2)),
                None => None,
            }
        },
        None => None,
    }
}

/// The whole per-buffer pipeline: delete the selected definitions, then run
/// the cleanup pass on the result.  Fails exactly when the buffer, or the
/// buffer the deletion produced, does not parse.
pub fn process_buffer(src: &[u8], diagnostics: &Vec<(UnusedDiagnosticKind, Vec<u8>)>) -> (r:
    Result<Vec<u8>, ParseError>)
    ensures
        match r {
            Ok(out) => process_buffer_spec(src@, diagnostics@) == Some(out@),
            Err(_) => process_buffer_spec(src@, diagnostics@) is None,
        },
{
    let deleted = match rust_delete(src, diagnostics) {
        Ok(d) => d,
        Err(e) => {
            return Err(e);
        },
    };
    let out = match remove_empty_blocks(deleted.as_slice()) {
        Ok(o) => o,
        Err(e) => {
            return Err(e);
        },
    };
    Ok(out)
}

/// One file's pending edit: the path, the bytes read from it, and the bytes
/// proposed to replace them.
pub struct Change {
    file_name: Vec<u8>,
    original_content: Vec<u8>,
    proposed_content: Vec<u8>,
}

impl Change {
    /// The path of the file this change belongs to.
    pub closed spec fn spec_file_name(&self) -> Seq<u8> {
        self.file_name@
    }

    /// The bytes the file held when it was read.
    pub closed spec fn spec_original_content(&self) -> Seq<u8> {
        self.original_content@
    }

    /// The bytes proposed to replace them.
    pub closed spec fn spec_proposed_content(&self) -> Seq<u8> {
        self.proposed_content@
    }

    /// Pairs a file's original bytes with the bytes proposed for it.
    pub fn new(file_name: Vec<u8>, original_content: Vec<u8>, proposed_content: Vec<u8>) -> (r:
        Change)
        ensures
            r.spec_file_name() == file_name@,
            r.spec_original_content() == original_content@,
            r.spec_proposed_content() == proposed_content@,
    {
        Change { file_name, original_content, proposed_content }
    }

    pub fn file_name(&self) -> (r: &Vec<u8>)
        ensures
            r@ == self.spec_file_name(),
    {
        &self.file_name
    }

    pub fn original_content(&self) -> (r: &[u8])
        ensures
            r@ == self.spec_original_content(),
    {
        self.original_content.as_slice()
    }

    pub fn proposed_content(&self) -> (r: &[u8])
        ensures
            r@ == self.spec_proposed_content(),
    {
        self.proposed_content.as_slice()
    }
}

/// The distinct file names among the first `n` diagnostics, in order of
/// first occurrence.
pub open spec fn group_keys_upto(diags: Seq<UnusedDiagnostic>, n: int) -> Seq<Seq<u8>>
    decreases n,
{
    if n <= 0 {
        Seq::empty()
    } else {
        let p = group_keys_upto(diags, n - 1);
        if p.contains(diags[n - 1].span.file_name@) {
            p
        } else {
            p.push(diags[n - 1].span.file_name@)
        }
    }
}

/// The positions, in order, of the first `n` diagnostics whose span names
/// the file `key`.
pub open spec fn group_positions_upto(diags: Seq<UnusedDiagnostic>, key: Seq<u8>, n: int) -> Seq<
    usize,
>
    decreases n,
{
    if n <= 0 {
        Seq::empty()
    } else {
        let p = group_positions_upto(diags, key, n - 1);
        if diags[n - 1].span.file_name@ == key {
            p.push((n - 1) as usize)
        } else {
            p
        }
    }
}

fn key_position(keys: &Vec<Vec<u8>>, name: &[u8]) -> (r: Option<usize>)
    ensures
        match r {
            Some(j) => 0 <= j < keys@.len() && keys@[j as int]@ == name@,
            None => forall|j: int| 0 <= j < keys@.len() ==> (#[trigger] keys@[j])@ != name@,
        },
{
    let mut j: usize = 0;
    while j < keys.len()
        invariant
            0 <= j <= keys@.len(),
            forall|m: int| 0 <= m < j ==> (#[trigger] keys@[m])@ != name@,
        decreases keys@.len() - j,
    {
        if bytes_eq(keys[j].as_slice(), name) {
            return Some(j);
        }
        j += 1;
    }
    None
}

/// Groups diagnostics by the file their span names: one entry per distinct
/// file, in order of first occurrence, carrying the positions (into the
/// given list) of that file's diagnostics, in their original order.
pub fn group_by_file(diags: &Vec<UnusedDiagnostic>) -> (r: Vec<(Vec<u8>, Vec<usize>)>)
    ensures
        r@.len() == group_keys_upto(diags@, diags@.len() as int).len(),
        forall|g: int| 0 <= g < r@.len() ==> (#[trigger] r@[g]).0@ == group_keys_upto(
            diags@,
            diags@.len() as int,
        )[g],
        forall|g: int| 0 <= g < r@.len() ==> (#[trigger] r@[g]).1@ == group_positions_upto(
            diags@,
            r@[g].0@,
            diags@.len() as int,
        ),
{
    let mut keys: Vec<Vec<u8>> = Vec::new();
    let mut i: usize = 0;
    while i < diags.len()
        invariant
            0 <= i <= diags@.len(),
            keys@.len() == group_keys_upto(diags@, i as int).len(),
            forall|j: int| 0 <= j < keys@.len() ==> (#[trigger] keys@[j])@ == group_keys_upto(
                diags@,
                i as int,
            )[j],
        decreases diags@.len() - i,
    {
        let name = diags[i].span.file_name.as_slice();
        let ghost prev = group_keys_upto(diags@, i as int);
        match key_position(&keys, name) {
            Some(_) => {
                proof {
                    let j = choose|j: int| 0 <= j < keys@.len() && keys@[j]@ == name@;
                    assert(prev[j] == name@);
                    assert(prev.contains(name@));
                }
            },
            None => {
                keys.push(slice_to_vec(name));
                proof {
                    assert forall|x: Seq<u8>| prev.contains(x) implies x != name@ by {
                        let j = choose|j: int| 0 <= j < prev.len() && prev[j] == x;
                        assert(keys@[j]@ == prev[j]);
                    }
                    assert(!prev.contains(name@));
                }
            },
        }
        i += 1;
    }
    let ghost all_keys = group_keys_upto(diags@, diags@.len() as int);
    let mut out: Vec<(Vec<u8>, Vec<usize>)> = Vec::new();
    let mut g: usize = 0;
    while g < keys.len()
        invariant
            0 <= g <= keys@.len(),
            keys@.len() == all_keys.len(),
            forall|j: int| 0 <= j < keys@.len() ==> (#[trigger] keys@[j])@ == all_keys[j],
            out@.len() == g,
            forall|j: int| 0 <= j < g ==> (#[trigger] out@[j]).0@ == all_keys[j],
            forall|j: int| 0 <= j < g ==> (#[trigger] out@[j]).1@ == group_positions_upto(
                diags@,
                out@[j].0@,
                diags@.len() as int,
            ),
        decreases keys@.len() - g,
    {
        let key = keys[g].as_slice();
        let mut positions: Vec<usize> = Vec::new();
        let mut i2: usize = 0;
        while i2 < diags.len()
            invariant
                0 <= i2 <= diags@.len(),
                positions@ == group_positions_upto(diags@, key@, i2 as int),
            decreases diags@.len() - i2,
        {
            if bytes_eq(diags[i2].span.file_name.as_slice(), key) {
                positions.push(i2);
            }
            i2 += 1;
        }
        out.push((slice_to_vec(key), positions));
        g += 1;
    }
    out
}

} // verus!
