//! Where lines end.

use vstd::prelude::*;

verus! {

pub const CR: u8 = 0x0d;

pub const LF: u8 = 0x0a;

/// Whether a line of `s` ends at `i`.
pub open spec fn ends_at(s: Seq<u8>, i: int) -> bool {
    0 <= i < s.len() - 1 && s[i] == CR && s[i + 1] == LF
}

/// Whether the first line of `s` ends at `i`.
pub open spec fn first_ends_at(s: Seq<u8>, i: int) -> bool {
    ends_at(s, i) && forall|j: int| 0 <= j < i ==> !#[trigger] ends_at(s, j)
}

/// Where the first line of `s` ends, if it does.
pub open spec fn crlf_index(s: Seq<u8>) -> Option<int> {
    if exists|i: int| first_ends_at(s, i) {
        Some(choose|i: int| first_ends_at(s, i))
    } else {
        None
    }
}

/// The first line of `s` ends in one place only.
pub proof fn lemma_crlf_index(s: Seq<u8>, i: int)
    requires
        first_ends_at(s, i),
    ensures
        crlf_index(s) == Some(i),
{
    let found = choose|k: int| first_ends_at(s, k);
    assert(first_ends_at(s, found));
    if found < i {
        assert(ends_at(s, found));
    } else if i < found {
        assert(ends_at(s, i));
    }
}

/// Finds the first end of a line.
pub fn find_crlf(buf: &[u8]) -> (result: Option<usize>)
    ensures
        match result {
            Some(index) => first_ends_at(buf@, index as int) && crlf_index(buf@) == Some(
                index as int,
            ),
            None => crlf_index(buf@) is None && forall|i: int| !#[trigger] ends_at(buf@, i),
        },
{
    let len: usize = buf.len();
    let mut i: usize = 0;
    while len > 1 && i < len - 1
        invariant
            i <= len == buf@.len(),
            forall|j: int| 0 <= j < i ==> !#[trigger] ends_at(buf@, j),
        decreases len - i,
    {
        if buf[i] == CR && buf[i + 1] == LF {
            proof {
                assert(ends_at(buf@, i as int));
                lemma_crlf_index(buf@, i as int);
            }
            return Some(i);
        }
        i += 1;
    }
    None
}

} // verus!
