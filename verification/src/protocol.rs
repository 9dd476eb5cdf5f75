//! The minimal control-channel protocol: one request line per connection,
//! read into a fixed-size buffer, interpreted as a NUL-trimmed command, and
//! answered with one fixed acknowledgement.

use vstd::prelude::*;

verus! {

/// How many bytes of a request one connection reads at most.
pub const REQUEST_BUFFER_SIZE: usize = 512;

/// How many NUL bytes the buffer starts with.
pub open spec fn spec_leading_nuls(s: Seq<u8>) -> int
    decreases s.len(),
{
    if s.len() == 0 {
        0
    } else if s[0] != 0 {
        0
    } else {
        1 + spec_leading_nuls(s.drop_first())
    }
}

/// How many NUL bytes the buffer ends with.
pub open spec fn spec_trailing_nuls(s: Seq<u8>) -> int
    decreases s.len(),
{
    if s.len() == 0 {
        0
    } else if s.last() != 0 {
        0
    } else {
        1 + spec_trailing_nuls(s.drop_last())
    }
}

/// The request with the NUL padding of the read buffer removed from both
/// ends (empty when the buffer holds nothing but padding).
pub open spec fn spec_trim_nuls(s: Seq<u8>) -> Seq<u8> {
    if spec_leading_nuls(s) == s.len() {
        Seq::empty()
    } else {
        s.subrange(spec_leading_nuls(s), s.len() - spec_trailing_nuls(s))
    }
}

/// The leading-NUL count is the position of the first non-NUL byte.
pub proof fn lemma_leading_nuls_char(s: Seq<u8>)
    ensures
        0 <= spec_leading_nuls(s) <= s.len(),
        forall|j: int| 0 <= j < spec_leading_nuls(s) ==> s[j] == 0,
        spec_leading_nuls(s) < s.len() ==> s[spec_leading_nuls(s)] != 0,
    decreases s.len(),
{
    if s.len() > 0 && s[0] == 0 {
        lemma_leading_nuls_char(s.drop_first());
        assert(forall|j: int| 0 <= j < s.len() - 1 ==> s.drop_first()[j] == s[j + 1]);
        assert forall|j: int| 0 <= j < spec_leading_nuls(s) implies s[j] == 0 by {
            if j > 0 {
                assert(s.drop_first()[j - 1] == 0);
            }
        }
    }
}

/// The trailing-NUL count is the distance from the last non-NUL byte.
pub proof fn lemma_trailing_nuls_char(s: Seq<u8>)
    ensures
        0 <= spec_trailing_nuls(s) <= s.len(),
        forall|j: int| s.len() - spec_trailing_nuls(s) <= j < s.len() ==> s[j] == 0,
        spec_trailing_nuls(s) < s.len() ==> s[s.len() - spec_trailing_nuls(s) - 1] != 0,
    decreases s.len(),
{
    if s.len() > 0 && s.last() == 0 {
        lemma_trailing_nuls_char(s.drop_last());
        assert(forall|j: int| 0 <= j < s.len() - 1 ==> s.drop_last()[j] == s[j]);
    }
}

/// The request bytes with the read buffer's NUL padding removed from both
/// ends, as the original command text the client sent.
pub fn trim_request(buf: &Vec<u8>) -> (r: Vec<u8>)
    ensures
        r@ == spec_trim_nuls(buf@),
{
    proof {
        lemma_leading_nuls_char(buf@);
        lemma_trailing_nuls_char(buf@);
    }
    let n = buf.len();
    let mut lo: usize = 0;
    while lo < n && buf[lo] == 0
        invariant
            n == buf@.len(),
            lo <= n,
            forall|j: int| 0 <= j < lo ==> buf@[j] == 0,
        decreases n - lo,
    {
        lo = lo + 1;
    }
    proof {
        assert(lo as int == spec_leading_nuls(buf@)) by {
            lemma_leading_nuls_char(buf@);
            if (lo as int) < spec_leading_nuls(buf@) {
                assert(buf@[lo as int] == 0);
            }
            if spec_leading_nuls(buf@) < lo as int {
                assert(buf@[spec_leading_nuls(buf@)] == 0);
            }
        }
    }
    if lo == n {
        let r: Vec<u8> = Vec::new();
        return r;
    }
    let mut hi: usize = n;
    while hi > lo && buf[hi - 1] == 0
        invariant
            n == buf@.len(),
            lo < n,
            lo <= hi <= n,
            forall|j: int| hi <= j < n ==> buf@[j] == 0,
            buf@[lo as int] != 0,
        decreases hi,
    {
        hi = hi - 1;
    }
    proof {
        assert(n - hi == spec_trailing_nuls(buf@)) by {
            lemma_trailing_nuls_char(buf@);
            if (n - hi) < spec_trailing_nuls(buf@) {
                assert(buf@[hi as int - 1] == 0);
            }
            if spec_trailing_nuls(buf@) < n - hi {
                assert(buf@[n - spec_trailing_nuls(buf@) - 1] == 0);
            }
        }
    }
    let mut r: Vec<u8> = Vec::new();
    let mut i: usize = lo;
    while i < hi
        invariant
            n == buf@.len(),
            lo <= i <= hi <= n,
            r@ == buf@.subrange(lo as int, i as int),
        decreases hi - i,
    {
        r.push(buf[i]);
        proof {
            assert(buf@.subrange(lo as int, i as int + 1) =~= buf@.subrange(
                lo as int,
                i as int,
            ).push(buf@[i as int]));
        }
        i = i + 1;
    }
    r
}

/// The fixed confirmation every request is answered with.
pub fn acknowledgement() -> (r: String)
    ensures
        r@ == "received your request"@,
{
    "received your request".to_owned()
}

} // verus!
