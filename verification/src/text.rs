//! Small byte-sequence helpers shared by the parsing and scanning modules.

use vstd::prelude::*;

verus! {

use vstd::string::StringSliceAdditionalSpecFns;

/// True when the two byte slices hold the same bytes.
pub fn bytes_eq(a: &[u8], b: &[u8]) -> (r: bool)
    ensures
        r == (a@ == b@),
{
    if a.len() != b.len() {
        proof {
            assert(a@.len() != b@.len());
        }
        return false;
    }
    let mut i: usize = 0;
    while i < a.len()
        invariant
            0 <= i <= a@.len(),
            a@.len() == b@.len(),
            forall|j: int| 0 <= j < i ==> a@[j] == b@[j],
        decreases a@.len() - i,
    {
        if a[i] != b[i] {
            return false;
        }
        i += 1;
    }
    proof {
        assert(a@ =~= b@);
    }
    true
}

/// True when `s` holds exactly the bytes of the ASCII literal `kw`.
pub fn token_is(s: &[u8], kw: &str) -> (r: bool)
    ensures
        r == (s@ == kw.spec_bytes()),
{
    bytes_eq(s, kw.as_bytes())
}

/// Index of the first occurrence of `b` in `s` at or after `from`;
/// `s.len()` when there is none.
pub open spec fn find_from_spec(s: Seq<u8>, b: u8, i: int) -> int
    decreases s.len() - i,
{
    if i < 0 || i >= s.len() {
        s.len() as int
    } else if s[i] == b {
        i
    } else {
        find_from_spec(s, b, i + 1)
    }
}

pub fn find_byte_from(s: &[u8], b: u8, from: usize) -> (r: usize)
    ensures
        r == find_from_spec(s@, b, from as int),
        r <= s@.len(),
        from as int <= s@.len() ==> from as int <= r,
{
    let mut i: usize = from;
    if i > s.len() {
        proof {
            assert(find_from_spec(s@, b, from as int) == s@.len());
        }
        return s.len();
    }
    while i < s.len()
        invariant
            from <= i <= s@.len(),
            find_from_spec(s@, b, from as int) == find_from_spec(s@, b, i as int),
        decreases s@.len() - i,
    {
        if s[i] == b {
            return i;
        }
        i += 1;
    }
    s.len()
}

} // verus!
