#![allow(non_snake_case)]

use vstd::prelude::*;

verus! {

/// Stateless modulus helpers.
#[derive(Clone, Copy, Debug, PartialEq, Eq, Structural)]
pub struct NumberHelper;

/// What `modNumber` computes: the remainder of `number` by `m` when `m` is
/// positive, and `number` itself when `m` is zero.
pub open spec fn spec_mod_number(number: u128, m: u32) -> u128 {
    if m > 0 {
        (number % (m as u128)) as u128
    } else {
        number
    }
}

impl NumberHelper {
    /// Reduce one number by the modulus, leaving it unchanged when the
    /// modulus is zero.
    pub fn modNumber(&self, _number: u128, _mod: u32) -> (r: u128)
        ensures
            r == spec_mod_number(_number, _mod),
    {
        if _mod > 0 {
            _number % (_mod as u128)
        } else {
            _number
        }
    }

    /// Reduce every number of the sequence by the modulus, element by
    /// element, in order.
    pub fn modNumbers(&self, _numbers: Vec<u128>, _mod: u32) -> (r: Vec<u128>)
        ensures
            r@.len() == _numbers@.len(),
            forall|k: int| 0 <= k < _numbers@.len() ==> r@[k] == spec_mod_number(_numbers@[k], _mod),
    {
        let mut out: Vec<u128> = Vec::new();
        let mut i: usize = 0;
        while i < _numbers.len()
            invariant
                i <= _numbers@.len(),
                out@.len() == i,
                forall|k: int| 0 <= k < i ==> out@[k] == spec_mod_number(_numbers@[k], _mod),
            decreases _numbers@.len() - i,
        {
            out.push(self.modNumber(_numbers[i], _mod));
            i = i + 1;
        }
        out
    }
}

impl Default for NumberHelper {
    fn default() -> (r: NumberHelper)
        ensures
            r == NumberHelper,
    {
        NumberHelper
    }
}

} // verus!
