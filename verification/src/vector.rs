use vstd::prelude::*;

verus! {

/// A coordinate or fitness measurement enters the library as an *order key*:
/// an unsigned integer whose `<` order agrees with the order of the real
/// quantity it stands for. The caller owns the (lossless, order-preserving)
/// encoding and performs all numeric arithmetic on the underlying reals;
/// the library does everything that depends only on order and identity.
///
/// `clamped` is the scalar clamp on such keys: the nearest point of the
/// interval `[lower, upper]`.
pub open spec fn clamped(x: u64, lower: u64, upper: u64) -> u64 {
    if x < lower {
        lower
    } else if x > upper {
        upper
    } else {
        x
    }
}

/// An N-dimensional point, one order key per coordinate. All points that meet
/// in an arithmetic operation or in one population share the same dimension.
pub struct VectorN {
    pub coordinates: Vec<u64>,
}

impl View for VectorN {
    type V = Seq<u64>;

    open spec fn view(&self) -> Seq<u64> {
        self.coordinates@
    }
}

impl VectorN {
    pub fn new(coordinates: Vec<u64>) -> (v: VectorN)
        ensures
            v@ == coordinates@,
    {
        VectorN { coordinates }
    }

    pub fn len(&self) -> (n: usize)
        ensures
            n == self@.len(),
    {
        self.coordinates.len()
    }

    /// An identical point (the coordinates are copied unchanged).
    pub fn duplicate(&self) -> (v: VectorN)
        ensures
            v@ == self@,
    {
        let coordinates = self.coordinates.clone();
        assert(coordinates@ =~= self.coordinates@);
        VectorN { coordinates }
    }

    /// Clamp every coordinate into the interval `[bounds.0, bounds.1]`.
    pub fn clamp(&mut self, bounds: (u64, u64))
        requires
            bounds.0 <= bounds.1,
        ensures
            final(self)@.len() == old(self)@.len(),
            forall|i: int|
                0 <= i < final(self)@.len() ==> final(self)@[i] == clamped(
                    old(self)@[i],
                    bounds.0,
                    bounds.1,
                ),
    {
        let n = self.coordinates.len();
        let mut i: usize = 0;
        while i < n
            invariant
                i <= n,
                n == self.coordinates@.len(),
                self@.len() == old(self)@.len(),
                bounds.0 <= bounds.1,
                forall|k: int|
                    0 <= k < i ==> self@[k] == clamped(old(self)@[k], bounds.0, bounds.1),
                forall|k: int| i <= k < n ==> self@[k] == old(self)@[k],
            decreases n - i,
        {
            let c = self.coordinates[i];
            let clamped_c = if c < bounds.0 {
                bounds.0
            } else if c > bounds.1 {
                bounds.1
            } else {
                c
            };
            self.coordinates[i] = clamped_c;
            i = i + 1;
        }
    }
}

/// The clamp of any key lies inside the interval.
pub proof fn lemma_clamp_in_range(x: u64, lower: u64, upper: u64)
    requires
        lower <= upper,
    ensures
        lower <= clamped(x, lower, upper) <= upper,
{
}

/// Clamping is idempotent: clamping a clamped key changes nothing.
pub proof fn lemma_clamp_idempotent(x: u64, lower: u64, upper: u64)
    requires
        lower <= upper,
    ensures
        clamped(clamped(x, lower, upper), lower, upper) == clamped(x, lower, upper),
{
}

/// A key already inside the interval is left alone.
pub proof fn lemma_clamp_identity_inside(x: u64, lower: u64, upper: u64)
    requires
        lower <= x <= upper,
    ensures
        clamped(x, lower, upper) == x,
{
}

} // verus!
