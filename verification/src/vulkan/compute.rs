use vstd::prelude::*;

verus! {

/// The number of items the compute pass works on: 1024 work groups of 64
/// invocations, one item each.
pub const COMPUTE_ITEMS: usize = 65536;

/// The compute shader multiplies every item by 12; the input holds each
/// item's own index, so item `n` must come back as `n * 12`.
pub open spec fn expected_item(n: int) -> int {
    n * 12
}

/// Whether `content`, read back after the compute pass, holds `n * 12` at
/// every index `n`.
pub fn compute_output_is_expected(content: &[u32]) -> (ok: bool)
    ensures
        ok <==> forall|n: int| 0 <= n < content@.len() ==> content@[n] == expected_item(n),
{
    let mut n: usize = 0;
    while n < content.len()
        invariant
            n <= content@.len(),
            forall|m: int| 0 <= m < n ==> content@[m] == expected_item(m),
        decreases content@.len() - n,
    {
        let item = content[n];
        // `item == n * 12`, tested without computing `n * 12`, which could
        // overflow.
        let matches = item % 12 == 0 && (item / 12) as usize == n;
        proof {
            assert(matches <==> item == expected_item(n as int)) by (nonlinear_arith)
                requires
                    matches <==> (item % 12 == 0 && item / 12 == n),
            ;
        }
        if !matches {
            return false;
        }
        n += 1;
    }
    true
}

} // verus!
