//! Comparing secrets.
use vstd::prelude::*;
use vstd::utf8::encode_utf8_decode_utf8;

verus! {

/// Compares two byte strings in a time that depends on their lengths alone.
pub fn constant_time_eq(left: &[u8], right: &[u8]) -> (result: bool)
    ensures
        result == (left@ == right@),
{
    if left.len() != right.len() {
        return false;
    }
    let mut difference: u8 = 0;
    let mut i: usize = 0;
    while i < left.len()
        invariant
            i <= left@.len(),
            left@.len() == right@.len(),
            difference == 0 <==> forall|k: int| 0 <= k < i ==> left@[k] == #[trigger] right@[k],
        decreases left@.len() - i,
    {
        let a = left[i];
        let b = right[i];
        let before = difference;
        difference = before | (a ^ b);
        assert((before | (a ^ b)) == 0 <==> before == 0 && a == b) by (bit_vector);
        i += 1;
    }
    proof {
        if difference == 0 {
            assert(left@ =~= right@);
        }
    }
    difference == 0
}

/// Compares two texts in a time that depends on their lengths alone.
pub fn same_secret(left: &str, right: &str) -> (result: bool)
    ensures
        result == (left@ == right@),
{
    let result = constant_time_eq(left.as_bytes(), right.as_bytes());
    proof {
        encode_utf8_decode_utf8(left@);
        encode_utf8_decode_utf8(right@);
    }
    result
}

} // verus!
