use vstd::prelude::*;
use crate::element::Element;
use crate::error::MatrixError;

verus! {

/// An owned, ordered sequence of elements.
pub struct Vector<T> {
    data: Vec<T>,
}

impl<T> View for Vector<T> {
    type V = Seq<T>;

    closed spec fn view(&self) -> Seq<T> {
        self.data@
    }
}

impl<T> Vector<T> {
    /// Wraps `data` without changing it.
    pub fn new(data: Vec<T>) -> (v: Self)
        ensures
            v@ == data@,
    {
        Self { data }
    }

    /// The number of elements.
    pub fn len(&self) -> (n: usize)
        ensures
            n == self@.len(),
    {
        self.data.len()
    }

    /// The element at position `i`.
    pub fn get(&self, i: usize) -> (x: &T)
        requires
            i < self@.len(),
        ensures
            *x == self@[i as int],
    {
        &self.data[i]
    }
}

impl<T> core::ops::Deref for Vector<T> {
    type Target = Vec<T>;

    /// The elements as a plain `Vec`.
    fn deref(&self) -> (data: &Vec<T>)
        ensures
            data@ == self@,
    {
        &self.data
    }
}

/// The sum of the first `n` elementwise products of `a` and `b`.
pub open spec fn dot_prefix<T: Element>(a: Seq<T>, b: Seq<T>, n: nat) -> int
    decreases n,
{
    if n == 0 {
        0
    } else {
        dot_prefix(a, b, (n - 1) as nat) + a[n - 1].value() * b[n - 1].value()
    }
}

/// The dot product of two sequences of the same length: the sum of all
/// their elementwise products.
pub open spec fn dot<T: Element>(a: Seq<T>, b: Seq<T>) -> int {
    dot_prefix(a, b, a.len())
}

/// Whether step `n` of accumulating the dot product from left to right
/// stays within `T`: the `n`-th product and the sum of the first `n` products.
pub open spec fn step_fits<T: Element>(a: Seq<T>, b: Seq<T>, n: nat) -> bool {
    T::in_range(a[n - 1].value() * b[n - 1].value()) && T::in_range(dot_prefix(a, b, n))
}

/// Whether the dot product of `a` and `b` can be accumulated from left to
/// right in `T`: every product and every partial sum is within range.
pub open spec fn dot_fits<T: Element>(a: Seq<T>, b: Seq<T>) -> bool {
    forall|n: nat| 0 < n <= a.len() ==> #[trigger] step_fits(a, b, n)
}

/// Swapping the operands changes no prefix sum.
pub proof fn lemma_dot_prefix_commutes<T: Element>(a: Seq<T>, b: Seq<T>, n: nat)
    ensures
        dot_prefix(a, b, n) == dot_prefix(b, a, n),
    decreases n,
{
    if n > 0 {
        lemma_dot_prefix_commutes(a, b, (n - 1) as nat);
        assert(a[n - 1].value() * b[n - 1].value() == b[n - 1].value() * a[n - 1].value())
            by (nonlinear_arith);
    }
}

/// The dot product does not depend on the order of its two operands, and
/// neither does whether it can be accumulated in `T`.
pub proof fn lemma_dot_commutes<T: Element>(a: Seq<T>, b: Seq<T>)
    requires
        a.len() == b.len(),
    ensures
        dot(a, b) == dot(b, a),
        dot_fits(a, b) == dot_fits(b, a),
{
    lemma_dot_prefix_commutes(a, b, a.len());
    assert forall|n: nat|
        #![trigger step_fits(a, b, n)]
        #![trigger step_fits(b, a, n)]
        0 < n <= a.len() implies step_fits(a, b, n) == step_fits(b, a, n) by {
        lemma_dot_prefix_commutes(a, b, n);
        assert(a[n - 1].value() * b[n - 1].value() == b[n - 1].value() * a[n - 1].value())
            by (nonlinear_arith);
    }
}

/// What computing the dot product of `a` and `b` in `T` comes to: a
/// mismatch if the lengths differ, else an overflow if some product or
/// partial sum cannot be held, else the dot product.
pub open spec fn dot_outcome<T: Element>(a: Seq<T>, b: Seq<T>) -> Result<int, MatrixError> {
    if a.len() != b.len() {
        Err(MatrixError::DimensionMismatch)
    } else if !dot_fits(a, b) {
        Err(MatrixError::Overflow)
    } else {
        Ok(dot(a, b))
    }
}

/// Computing a dot product comes to the same whichever operand stands first.
pub proof fn lemma_dot_outcome_commutes<T: Element>(a: Seq<T>, b: Seq<T>)
    ensures
        dot_outcome(a, b) == dot_outcome(b, a),
{
    if a.len() == b.len() {
        lemma_dot_commutes(a, b);
    }
}

/// Computes the dot product of `a` and `b`, starting from zero and adding
/// the products from left to right.
///
/// Fails with `DimensionMismatch` exactly when the lengths differ, and
/// otherwise with `Overflow` exactly when a product or a partial sum cannot
/// be held in `T`.
pub fn dot_product<T: Element>(a: Vector<T>, b: Vector<T>) -> (r: Result<T, MatrixError>)
    ensures
        match r {
            Ok(v) => dot_outcome(a@, b@) == Ok::<int, MatrixError>(v.value()),
            Err(e) => dot_outcome(a@, b@) == Err::<int, MatrixError>(e),
        },
{
    if a.len() != b.len() {
        return Err(MatrixError::DimensionMismatch);
    }
    let n: usize = a.len();
    let mut sum: T = T::zero();
    let mut i: usize = 0;
    while i < n
        invariant
            i <= n,
            n == a@.len(),
            n == b@.len(),
            forall|k: nat| 0 < k <= i ==> #[trigger] step_fits(a@, b@, k),
            sum.value() == dot_prefix(a@, b@, i as nat),
        decreases n - i,
    {
        let product: T = match a.get(i).checked_times(*b.get(i)) {
            Some(p) => p,
            None => {
                assert(!step_fits(a@, b@, (i + 1) as nat));
                return Err(MatrixError::Overflow);
            },
        };
        sum = match sum.checked_plus(product) {
            Some(s) => s,
            None => {
                assert(!step_fits(a@, b@, (i + 1) as nat));
                return Err(MatrixError::Overflow);
            },
        };
        i = i + 1;
        assert(step_fits(a@, b@, i as nat));
    }
    Ok(sum)
}

} // verus!
