//! Byte-level string tests used where wire payloads carry tags or locations.

use vstd::prelude::*;

verus! {

use vstd::string::StringSliceAdditionalSpecFns;
use vstd::string::StrSliceExecFns;

/// Whether `p`'s bytes open `s`.
pub fn has_byte_prefix(s: &str, p: &str) -> (r: bool)
    ensures
        r == p.spec_bytes().is_prefix_of(s.spec_bytes()),
{
    let sb = s.as_bytes_vec();
    let pb = p.as_bytes_vec();
    if pb.len() > sb.len() {
        return false;
    }
    let mut i: usize = 0;
    while i < pb.len()
        invariant
            i <= pb@.len(),
            pb@.len() <= sb@.len(),
            pb@ == p.spec_bytes(),
            sb@ == s.spec_bytes(),
            forall|j: int| 0 <= j < i ==> pb@[j] == sb@[j],
        decreases pb@.len() - i,
    {
        if pb[i] != sb[i] {
            proof {
                assert(p.spec_bytes().subrange(0, p.spec_bytes().len() as int)[i as int]
                    != s.spec_bytes()[i as int]);
            }
            return false;
        }
        i = i + 1;
    }
    proof {
        assert(p.spec_bytes().subrange(0, p.spec_bytes().len() as int) =~= p.spec_bytes());
        assert(s.spec_bytes().subrange(0, p.spec_bytes().len() as int) =~= p.spec_bytes());
    }
    true
}

/// Whether `s` and `p` hold the same bytes.
pub fn bytes_eq(s: &str, p: &str) -> (r: bool)
    ensures
        r == (s.spec_bytes() == p.spec_bytes()),
{
    let sb = s.as_bytes_vec();
    let pb = p.as_bytes_vec();
    if pb.len() != sb.len() {
        return false;
    }
    let mut i: usize = 0;
    while i < pb.len()
        invariant
            i <= pb@.len(),
            pb@.len() == sb@.len(),
            pb@ == p.spec_bytes(),
            sb@ == s.spec_bytes(),
            forall|j: int| 0 <= j < i ==> pb@[j] == sb@[j],
        decreases pb@.len() - i,
    {
        if pb[i] != sb[i] {
            return false;
        }
        i = i + 1;
    }
    proof {
        assert(s.spec_bytes() =~= p.spec_bytes());
    }
    true
}

} // verus!
