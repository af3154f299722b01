use vstd::prelude::*;

verus! {

/// `pattern` is found at `offset` in `memory`: every byte of the pattern that
/// `must_match` marks as significant equals the byte of memory under it.
/// Only the first `min(pattern.len(), must_match.len())` bytes are compared.
pub open spec fn window_matches(memory: Seq<u8>, offset: int, pattern: Seq<u8>, must_match: Seq<bool>) -> bool {
    forall|j: int|
        #![trigger must_match[j]]
        0 <= j < pattern.len() && j < must_match.len() && must_match[j] ==> memory[offset + j]
            == pattern[j]
}

/// `offset` is a position that the search looks at: the pattern ends strictly
/// before the end of the memory.
pub open spec fn in_search_range(memory: Seq<u8>, offset: int, pattern: Seq<u8>) -> bool {
    0 <= offset && offset + pattern.len() < memory.len()
}

/// The search finds a match at `offset`, and at no position before it.
pub open spec fn first_match(memory: Seq<u8>, offset: int, pattern: Seq<u8>, must_match: Seq<bool>) -> bool {
    &&& in_search_range(memory, offset, pattern)
    &&& window_matches(memory, offset, pattern, must_match)
    &&& forall|k: int|
        0 <= k < offset ==> !#[trigger] window_matches(memory, k, pattern, must_match)
}

/// No position of the search range holds a match.
pub open spec fn no_match(memory: Seq<u8>, pattern: Seq<u8>, must_match: Seq<bool>) -> bool {
    forall|k: int|
        in_search_range(memory, k, pattern) ==> !#[trigger] window_matches(
            memory,
            k,
            pattern,
            must_match,
        )
}

/// Compares the pattern with the memory at `offset`.
fn matches_at(memory: &[u8], offset: usize, pattern: &[u8], must_match: &[bool]) -> (r: bool)
    requires
        offset + pattern@.len() < memory@.len(),
    ensures
        r == window_matches(memory@, offset as int, pattern@, must_match@),
{
    let n: usize = if pattern.len() < must_match.len() {
        pattern.len()
    } else {
        must_match.len()
    };
    let mut j: usize = 0;
    while j < n
        invariant
            j <= n,
            n <= pattern@.len(),
            n <= must_match@.len(),
            n == pattern@.len() || n == must_match@.len(),
            offset + pattern@.len() < memory@.len(),
            memory@.len() == memory.len(),
            forall|i: int|
                #![trigger must_match@[i]]
                0 <= i < j && must_match@[i] ==> memory@[offset + i] == pattern@[i],
        decreases n - j,
    {
        if memory[offset + j] != pattern[j] && must_match[j] {
            assert(!window_matches(memory@, offset as int, pattern@, must_match@)) by {
                assert(must_match@[j as int]);
            }
            return false;
        }
        j = j + 1;
    }
    true
}

/// Finds the first position in the first `len` bytes of `memory` at which
/// `pattern` occurs, comparing only the bytes that `must_match` marks. A
/// position is looked at only when the whole pattern ends strictly before
/// `len`. Returns the offset of the match from the start of `memory`.
pub fn search_memory(memory: &[u8], len: usize, pattern: &[u8], must_match: &[bool]) -> (r: Option<
    usize,
>)
    requires
        len <= memory@.len(),
    ensures
        match r {
            Some(offset) => first_match(
                memory@.take(len as int),
                offset as int,
                pattern@,
                must_match@,
            ),
            None => no_match(memory@.take(len as int), pattern@, must_match@),
        },
{
    let plen: usize = pattern.len();
    if plen >= len {
        return None;
    }
    let ghost region = memory@.take(len as int);
    let mut offset: usize = 0;
    while offset < len - plen
        invariant
            len <= memory@.len(),
            region == memory@.take(len as int),
            plen == pattern@.len(),
            plen < len,
            offset <= len - plen,
            forall|k: int|
                0 <= k < offset ==> !#[trigger] window_matches(region, k, pattern@, must_match@),
        decreases len - plen - offset,
    {
        if matches_at(memory, offset, pattern, must_match) {
            assert(window_matches(region, offset as int, pattern@, must_match@)
                == window_matches(memory@, offset as int, pattern@, must_match@));
            return Some(offset);
        }
        assert(window_matches(region, offset as int, pattern@, must_match@)
            == window_matches(memory@, offset as int, pattern@, must_match@));
        offset = offset + 1;
    }
    None
}

/// Byte-wise equality of two byte strings.
pub fn bytes_equal(a: &[u8], b: &[u8]) -> (r: bool)
    ensures
        r == (a@ == b@),
{
    if a.len() != b.len() {
        return false;
    }
    let mut i: usize = 0;
    while i < a.len()
        invariant
            a@.len() == b@.len(),
            i <= a@.len(),
            forall|k: int| 0 <= k < i ==> a@[k] == b@[k],
        decreases a@.len() - i,
    {
        if a[i] != b[i] {
            return false;
        }
        i = i + 1;
    }
    assert(a@ =~= b@);
    true
}

} // verus!
