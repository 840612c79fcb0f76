use vstd::prelude::*;

verus! {

/// The product of the sizes.
pub open spec fn sizes_product(sizes: Seq<u64>) -> int
    decreases sizes.len(),
{
    if sizes.len() == 0 {
        1
    } else {
        sizes_product(sizes.drop_last()) * sizes.last()
    }
}

/// The digits of `i` in the mixed radix of `sizes`, the last digit
/// changing fastest: the position of the `i`-th element of an array of
/// that shape in row-major order.
pub open spec fn digits(sizes: Seq<u64>, i: nat) -> Seq<u64>
    decreases sizes.len(),
{
    if sizes.len() == 0 {
        Seq::empty()
    } else {
        digits(sizes.drop_last(), i / (sizes.last() as nat)).push((i % (sizes.last() as nat)) as u64)
    }
}

/// Sizes that are all at least one only grow in product.
pub proof fn lemma_sizes_product_prefix(sizes: Seq<u64>, i: int)
    requires
        0 <= i <= sizes.len(),
        forall|j: int| 0 <= j < sizes.len() ==> #[trigger] sizes[j] > 0,
    ensures
        1 <= sizes_product(sizes.subrange(0, i)) <= sizes_product(sizes),
    decreases sizes.len(),
{
    if sizes.len() == 0 {
        assert(sizes.subrange(0, i) =~= sizes);
    } else {
        let s = sizes.drop_last();
        lemma_sizes_product_prefix(s, s.len() as int);
        assert(s.subrange(0, s.len() as int) =~= s);
        let a = sizes_product(s);
        let b = sizes.last() as int;
        assert(a <= a * b) by (nonlinear_arith)
            requires
                a >= 1,
                b >= 1,
        ;
        if i == sizes.len() {
            assert(sizes.subrange(0, i) =~= sizes);
        } else {
            lemma_sizes_product_prefix(s, i);
            assert(s.subrange(0, i) =~= sizes.subrange(0, i));
        }
    }
}

/// A zero size makes the product zero.
pub proof fn lemma_sizes_product_zero(sizes: Seq<u64>, j: int)
    requires
        0 <= j < sizes.len(),
        sizes[j] == 0,
    ensures
        sizes_product(sizes) == 0,
    decreases sizes.len(),
{
    if j < sizes.len() - 1 {
        lemma_sizes_product_zero(sizes.drop_last(), j);
    }
}

fn digits_of(sizes: &[u64], len: usize, i: u64) -> (r: Vec<u64>)
    requires
        len <= sizes@.len(),
        forall|j: int| 0 <= j < len ==> #[trigger] sizes@[j] > 0,
    ensures
        r@ == digits(sizes@.subrange(0, len as int), i as nat),
    decreases len,
{
    if len == 0 {
        Vec::new()
    } else {
        let last = sizes[len - 1];
        let mut r = digits_of(sizes, len - 1, i / last);
        r.push(i % last);
        proof {
            let s = sizes@.subrange(0, len as int);
            assert(s.drop_last() =~= sizes@.subrange(0, len - 1));
        }
        r
    }
}

/// Every position of an array of shape `sizes`, in row-major order. No
/// sizes give no positions.
pub fn tuples(sizes: &[u64]) -> (r: Vec<Vec<u64>>)
    requires
        sizes_product(sizes@) <= usize::MAX,
    ensures
        sizes@.len() == 0 ==> r@.len() == 0,
        sizes@.len() > 0 ==> r@.len() == sizes_product(sizes@),
        forall|i: int| 0 <= i < r@.len() ==> (#[trigger] r@[i])@ == digits(sizes@, i as nat),
{
    let mut out: Vec<Vec<u64>> = Vec::new();
    if sizes.len() == 0 {
        return out;
    }
    let mut k: usize = 0;
    while k < sizes.len()
        invariant
            k <= sizes@.len(),
            out@.len() == 0,
            forall|j: int| 0 <= j < k ==> #[trigger] sizes@[j] > 0,
        decreases sizes.len() - k,
    {
        if sizes[k] == 0 {
            proof {
                lemma_sizes_product_zero(sizes@, k as int);
            }
            return out;
        }
        k = k + 1;
    }
    let mut product: u64 = 1;
    let mut k: usize = 0;
    while k < sizes.len()
        invariant
            sizes_product(sizes@) <= usize::MAX,
            k <= sizes@.len(),
            forall|j: int| 0 <= j < sizes@.len() ==> #[trigger] sizes@[j] > 0,
            product as int == sizes_product(sizes@.subrange(0, k as int)),
        decreases sizes.len() - k,
    {
        proof {
            let s = sizes@.subrange(0, k + 1);
            assert(s.drop_last() =~= sizes@.subrange(0, k as int));
            lemma_sizes_product_prefix(sizes@, k + 1);
        }
        product = product * sizes[k];
        k = k + 1;
    }
    let total = product as usize;
    proof {
        assert(sizes@.subrange(0, sizes@.len() as int) =~= sizes@);
    }
    let mut i: usize = 0;
    while i < total
        invariant
            forall|j: int| 0 <= j < sizes@.len() ==> #[trigger] sizes@[j] > 0,
            total as int == sizes_product(sizes@),
            i <= total,
            out@.len() == i,
            forall|j: int| 0 <= j < i ==> (#[trigger] out@[j])@ == digits(sizes@, j as nat),
        decreases total - i,
    {
        let d = digits_of(sizes, sizes.len(), i as u64);
        proof {
            assert(sizes@.subrange(0, sizes@.len() as int) =~= sizes@);
        }
        out.push(d);
        i = i + 1;
    }
    out
}

} // verus!
