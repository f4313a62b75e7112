//! Normalization profiles: the constants that map a colour byte to a
//! tensor value and back.

use vstd::prelude::*;
use crate::fixed::UNIT;

verus! {

/// Per-channel mean and standard deviation and a common scale, each in
/// millionths. No standard deviation is zero and the scale is not zero, so
/// that both directions of the mapping are defined.
#[derive(Clone, Copy, Debug)]
pub struct Profile {
    mean: [i32; 3],
    std_dev: [i32; 3],
    scale: i32,
}

impl Profile {
    #[verifier::type_invariant]
    spec fn non_degenerate(self) -> bool {
        &&& self.std_dev[0] != 0
        &&& self.std_dev[1] != 0
        &&& self.std_dev[2] != 0
        &&& self.scale != 0
    }

    /// The mean of channel `c` (0 red, 1 green, 2 blue), in millionths.
    pub closed spec fn mean_spec(self, c: int) -> int {
        self.mean[c] as int
    }

    /// The standard deviation of channel `c`, in millionths.
    pub closed spec fn std_spec(self, c: int) -> int {
        self.std_dev[c] as int
    }

    /// The scale applied after centring and dividing, in millionths.
    pub closed spec fn scale_spec(self) -> int {
        self.scale as int
    }

    /// Whether both directions of the mapping are defined: no standard
    /// deviation is zero and the scale is not zero. Every profile that
    /// executable code holds is valid.
    pub open spec fn is_valid(self) -> bool {
        &&& self.std_spec(0) != 0
        &&& self.std_spec(1) != 0
        &&& self.std_spec(2) != 0
        &&& self.scale_spec() != 0
    }

    /// The constants of a profile are 32-bit numbers.
    pub proof fn lemma_ranges(self)
        ensures
            i32::MIN <= self.scale_spec() <= i32::MAX,
            forall|c: int|
                0 <= c < 3 ==> i32::MIN <= #[trigger] self.mean_spec(c) <= i32::MAX && i32::MIN
                    <= #[trigger] self.std_spec(c) <= i32::MAX,
    {
    }

    /// Whether the constants have this shape: what `new` accepts.
    pub open spec fn accepts(std_dev: [i32; 3], scale: i32) -> bool {
        std_dev[0] != 0 && std_dev[1] != 0 && std_dev[2] != 0 && scale != 0
    }

    /// A profile with the given constants, or `None` where a standard
    /// deviation or the scale is zero.
    pub fn new(mean: [i32; 3], std_dev: [i32; 3], scale: i32) -> (r: Option<Profile>)
        ensures
            r is Some <==> Self::accepts(std_dev, scale),
            r matches Some(p) ==> {
                &&& p.is_valid()
                &&& p.scale_spec() == scale
                &&& forall|c: int| 0 <= c < 3 ==> p.mean_spec(c) == mean[c] && p.std_spec(c) == std_dev[c]
            },
    {
        if std_dev[0] == 0 || std_dev[1] == 0 || std_dev[2] == 0 || scale == 0 {
            None
        } else {
            Some(Profile { mean, std_dev, scale })
        }
    }

    /// Tensor values in 0..=1: mean 0, deviation 1, scale 1.
    pub fn unit_range() -> (p: Profile)
        ensures
            p.scale_spec() == UNIT,
            forall|c: int| 0 <= c < 3 ==> p.mean_spec(c) == 0 && p.std_spec(c) == UNIT,
    {
        Profile { mean: [0, 0, 0], std_dev: [1_000_000, 1_000_000, 1_000_000], scale: 1_000_000 }
    }

    /// Tensor values in -1..=1: mean one half, deviation one half, scale 1.
    pub fn signed_range() -> (p: Profile)
        ensures
            p.scale_spec() == UNIT,
            forall|c: int| 0 <= c < 3 ==> p.mean_spec(c) == 500_000 && p.std_spec(c) == 500_000,
    {
        Profile { mean: [500_000, 500_000, 500_000], std_dev: [500_000, 500_000, 500_000], scale: 1_000_000 }
    }

    /// Tensor values in 0..=255: mean 0, deviation 1, scale 255.
    pub fn byte_range() -> (p: Profile)
        ensures
            p.scale_spec() == 255 * UNIT,
            forall|c: int| 0 <= c < 3 ==> p.mean_spec(c) == 0 && p.std_spec(c) == UNIT,
    {
        Profile { mean: [0, 0, 0], std_dev: [1_000_000, 1_000_000, 1_000_000], scale: 255_000_000 }
    }

    /// The mean of channel `c`.
    pub fn channel_mean(&self, c: usize) -> (m: i32)
        requires
            c < 3,
        ensures
            m == self.mean_spec(c as int),
    {
        self.mean[c]
    }

    /// The standard deviation of channel `c`; never zero.
    pub fn channel_std(&self, c: usize) -> (s: i32)
        requires
            c < 3,
        ensures
            s == self.std_spec(c as int),
            s != 0,
    {
        proof {
            use_type_invariant(self);
        }
        self.std_dev[c]
    }

    /// The scale; never zero.
    pub fn scale(&self) -> (k: i32)
        ensures
            k == self.scale_spec(),
            k != 0,
    {
        proof {
            use_type_invariant(self);
        }
        self.scale
    }
}

} // verus!
