pub mod adc_msg;
pub mod snap2_msg;

use vstd::prelude::*;

verus! {

/// Walks `input` in chunks of two values and takes elements 1 and 2 of each
/// chunk. A chunk never has an element 2, so only the empty input is
/// accepted, and it gives the empty result.
pub fn swap_phase_factor(input: &[i16]) -> (r: Vec<i16>)
    requires
        input@.len() == 0,
    ensures
        r@ == Seq::<i16>::empty(),
{
    let mut result: Vec<i16> = Vec::new();
    let mut i: usize = 0;
    while i < input.len()
        invariant
            input@.len() == 0,
            i == 0,
            result@ == Seq::<i16>::empty(),
        decreases input@.len() - i,
    {
        let end = if input.len() - i < 2 {
            input.len()
        } else {
            i + 2
        };
        let mut chunk: Vec<i16> = Vec::new();
        let mut k = i;
        while k < end
            invariant
                i <= k <= end,
                end <= input@.len(),
            decreases end - k,
        {
            chunk.push(input[k]);
            k = k + 1;
        }
        result.push(chunk[1]);
        result.push(chunk[2]);
        i = end;
    }
    result
}

} // verus!
