//! Gradient noise over a lattice of random unit vectors.
use vstd::prelude::*;
use crate::fixed::Fixed;
use crate::rtweekend::{is_unit_sample, random_int, spec_int_in_range};
use crate::vec3::{Point3, Vec3, dot, unit_vector};

verus! {

/// How many lattice vectors, and entries in each permutation.
pub const POINT_COUNT: usize = 256;

/// The numbers `0, 1, .., n - 1` in order.
pub open spec fn identity_table(n: nat) -> Seq<i32> {
    Seq::new(n, |i: int| i as i32)
}

/// Every entry of a table is an index into the lattice.
pub open spec fn in_lattice(p: Seq<i32>) -> bool {
    forall|i: int| 0 <= i < p.len() ==> 0 <= #[trigger] p[i] < POINT_COUNT
}

/// A lattice of 256 random vectors and one permutation of `0..256` per axis.
#[derive(Debug)]
pub struct Perlin {
    randvec: Vec<Vec3>,
    perm_x: Vec<i32>,
    perm_y: Vec<i32>,
    perm_z: Vec<i32>,
}

impl Default for Perlin {
    /// A fresh lattice: random unit vectors and, for each axis, a random
    /// permutation of `0..256`.
    fn default() -> (r: Self)
        ensures
            r.permutation(0).to_multiset() == identity_table(POINT_COUNT as nat).to_multiset(),
            r.permutation(1).to_multiset() == identity_table(POINT_COUNT as nat).to_multiset(),
            r.permutation(2).to_multiset() == identity_table(POINT_COUNT as nat).to_multiset(),
    {
        let mut randvec: Vec<Vec3> = Vec::with_capacity(POINT_COUNT);
        let mut i: usize = 0;
        while i < POINT_COUNT
            invariant
                i <= POINT_COUNT,
                randvec@.len() == i,
            decreases POINT_COUNT - i,
        {
            randvec.push(unit_vector(Vec3::random_range(Fixed::from_int(-1), Fixed::one())));
            i += 1;
        }
        let perm_x = Self::perlin_generate_perm();
        let perm_y = Self::perlin_generate_perm();
        let perm_z = Self::perlin_generate_perm();
        Perlin { randvec, perm_x, perm_y, perm_z }
    }
}

/// The corner of the unit cell that the count `n` in `0..8` names: its
/// offsets along x, y and z.
pub open spec fn corner(n: int) -> (int, int, int) {
    (n / 4, (n / 2) % 2, n % 2)
}

/// The weight `c` for the far side of an axis and `1 - c` for the near side.
pub open spec fn side_weight(far: int, c: Fixed) -> Fixed {
    if far == 1 {
        c
    } else {
        Fixed::one().sub(c)
    }
}

/// The Hermite smoothing `c^2 (3 - 2c)`.
pub open spec fn spec_smooth(c: Fixed) -> Fixed {
    c.mul(c).mul(Fixed::from_int(3).sub(Fixed::from_int(2).mul(c)))
}

/// What corner `n` adds to the interpolation at cell coordinates `(u, v, w)`.
pub open spec fn corner_term(g: Vec3, n: int, u: Fixed, v: Fixed, w: Fixed) -> Fixed {
    let c = corner(n);
    let weight_v = Vec3 {
        x: u.sub(Fixed::of(c.0 * 0x1_0000_0000)),
        y: v.sub(Fixed::of(c.1 * 0x1_0000_0000)),
        z: w.sub(Fixed::of(c.2 * 0x1_0000_0000)),
    };
    side_weight(c.0, spec_smooth(u)).mul(side_weight(c.1, spec_smooth(v))).mul(
        side_weight(c.2, spec_smooth(w)),
    ).mul(dot(g, weight_v))
}

/// The sum of what the first `n` corners add, in order.
pub open spec fn spec_interp(c: Seq<Vec3>, u: Fixed, v: Fixed, w: Fixed, n: nat) -> Fixed
    decreases n,
{
    if n == 0 {
        Fixed::zero()
    } else {
        spec_interp(c, u, v, w, (n - 1) as nat).add(corner_term(c[n - 1], n - 1, u, v, w))
    }
}

fn smooth(c: Fixed) -> (r: Fixed)
    ensures
        r == spec_smooth(c),
{
    c.mul(c).mul(Fixed::from_int(3).sub(Fixed::from_int(2).mul(c)))
}

fn weight_of(far: usize, c: Fixed) -> (r: Fixed)
    ensures
        r == side_weight(far as int, c),
{
    if far == 1 {
        c
    } else {
        Fixed::one().sub(c)
    }
}

impl Perlin {
    #[verifier::type_invariant]
    spec fn well_formed(self) -> bool {
        &&& self.randvec@.len() == POINT_COUNT
        &&& self.perm_x@.len() == POINT_COUNT
        &&& self.perm_y@.len() == POINT_COUNT
        &&& self.perm_z@.len() == POINT_COUNT
        &&& in_lattice(self.perm_x@)
        &&& in_lattice(self.perm_y@)
        &&& in_lattice(self.perm_z@)
    }

    /// The permutation for an axis: 0 is x, 1 is y, anything else is z.
    pub closed spec fn permutation(self, axis: int) -> Seq<i32> {
        if axis == 0 {
            self.perm_x@
        } else if axis == 1 {
            self.perm_y@
        } else {
            self.perm_z@
        }
    }

    /// The lattice vector for the cell corner `(i, j, k)`: the three
    /// permutations are read at the coordinates modulo 256 and combined by
    /// exclusive or.
    pub closed spec fn lattice(self, i: int, j: int, k: int) -> Vec3 {
        self.randvec@[((self.perm_x@[i % 256] as usize) ^ (self.perm_y@[j % 256] as usize) ^ (
        self.perm_z@[k % 256] as usize)) as int]
    }

    /// The eight lattice vectors at the corners of the cell whose least
    /// corner is `(i, j, k)`.
    pub open spec fn cell(self, i: int, j: int, k: int) -> Seq<Vec3> {
        Seq::new(
            8,
            |n: int| self.lattice(i + corner(n).0, j + corner(n).1, k + corner(n).2),
        )
    }

    /// The noise at `p`: the lattice vectors of the cell that holds `p`,
    /// interpolated at the position of `p` within the cell.
    pub open spec fn spec_noise(self, p: Point3) -> Fixed {
        spec_interp(
            self.cell(p.x.floor() as int, p.y.floor() as int, p.z.floor() as int),
            p.x.sub(Fixed::of(p.x.floor() * 0x1_0000_0000)),
            p.y.sub(Fixed::of(p.y.floor() * 0x1_0000_0000)),
            p.z.sub(Fixed::of(p.z.floor() * 0x1_0000_0000)),
            8,
        )
    }

    fn lattice_at(&self, i: i64, j: i64, k: i64) -> (g: Vec3)
        requires
            -0x4000_0001 <= i <= 0x4000_0001,
            -0x4000_0001 <= j <= 0x4000_0001,
            -0x4000_0001 <= k <= 0x4000_0001,
        ensures
            g == self.lattice(i as int, j as int, k as int),
    {
        proof {
            use_type_invariant(self);
        }
        let a: usize = self.perm_x[wrap256(i)] as usize;
        let b: usize = self.perm_y[wrap256(j)] as usize;
        let c: usize = self.perm_z[wrap256(k)] as usize;
        assert((a ^ b ^ c) < 256) by (bit_vector)
            requires
                a < 256,
                b < 256,
                c < 256,
        ;
        self.randvec[a ^ b ^ c]
    }

    /// The noise at `p`: the lattice vectors of the cell that holds `p`,
    /// interpolated at the position of `p` within the cell.
    pub fn noise(&self, p: Point3) -> (r: Fixed)
        ensures
            r == self.spec_noise(p),
    {
        let i: i64 = p.x.floor();
        let j: i64 = p.y.floor();
        let k: i64 = p.z.floor();
        let u = p.x.sub(Fixed::from_wide_raw((i as i128) * 0x1_0000_0000));
        let v = p.y.sub(Fixed::from_wide_raw((j as i128) * 0x1_0000_0000));
        let w = p.z.sub(Fixed::from_wide_raw((k as i128) * 0x1_0000_0000));
        let c: [Vec3; 8] = [
            self.lattice_at(i, j, k),
            self.lattice_at(i, j, k + 1),
            self.lattice_at(i, j + 1, k),
            self.lattice_at(i, j + 1, k + 1),
            self.lattice_at(i + 1, j, k),
            self.lattice_at(i + 1, j, k + 1),
            self.lattice_at(i + 1, j + 1, k),
            self.lattice_at(i + 1, j + 1, k + 1),
        ];
        assert(c@ =~= self.cell(i as int, j as int, k as int));
        Self::trilinear_interp(&c, u, v, w)
    }

    /// The eight corner vectors interpolated at cell coordinates `(u, v, w)`.
    pub fn trilinear_interp(c: &[Vec3; 8], u: Fixed, v: Fixed, w: Fixed) -> (r: Fixed)
        ensures
            r == spec_interp(c@, u, v, w, 8),
    {
        let uu = smooth(u);
        let vv = smooth(v);
        let ww = smooth(w);
        let mut accum = Fixed::zero();
        let mut n: usize = 0;
        while n < 8
            invariant
                n <= 8,
                c@.len() == 8,
                uu == spec_smooth(u),
                vv == spec_smooth(v),
                ww == spec_smooth(w),
                accum == spec_interp(c@, u, v, w, n as nat),
            decreases 8 - n,
        {
            let i: usize = n / 4;
            let j: usize = (n / 2) % 2;
            let k: usize = n % 2;
            let weight_v = Vec3::new(
                u.sub(Fixed::from_wide_raw((i as i128) * 0x1_0000_0000)),
                v.sub(Fixed::from_wide_raw((j as i128) * 0x1_0000_0000)),
                w.sub(Fixed::from_wide_raw((k as i128) * 0x1_0000_0000)),
            );
            let term = weight_of(i, uu).mul(weight_of(j, vv)).mul(weight_of(k, ww)).mul(
                dot(c[n], weight_v),
            );
            accum = accum.add(term);
            n += 1;
        }
        accum
    }

    /// The sum of `depth` octaves of noise, each at twice the frequency and
    /// half the weight of the one before.
    pub open spec fn spec_turb_sum(self, p: Point3, weight: Fixed, depth: nat) -> Fixed
        decreases depth,
    {
        if depth == 0 {
            Fixed::zero()
        } else {
            weight.mul(self.spec_noise(p)).add(
                self.spec_turb_sum(
                    p.scale(Fixed::from_int(2)),
                    weight.mul(Fixed::half()),
                    (depth - 1) as nat,
                ),
            )
        }
    }

    pub open spec fn spec_turb(self, p: Point3, depth: u32) -> Fixed {
        self.spec_turb_sum(p, Fixed::one(), depth as nat).abs()
    }

    fn turb_sum(&self, p: Point3, weight: Fixed, depth: u32) -> (r: Fixed)
        ensures
            r == self.spec_turb_sum(p, weight, depth as nat),
        decreases depth,
    {
        if depth == 0 {
            Fixed::zero()
        } else {
            let here = weight.mul(self.noise(p));
            let rest = self.turb_sum(
                p.scale(Fixed::from_int(2)),
                weight.mul(Fixed::half()),
                depth - 1,
            );
            here.add(rest)
        }
    }

    /// Turbulence: the magnitude of the sum of `depth` octaves of noise.
    pub fn turb(&self, p: Point3, depth: u32) -> (r: Fixed)
        ensures
            r == self.spec_turb(p, depth),
            r@ >= 0,
    {
        self.turb_sum(p, Fixed::one(), depth).abs()
    }

    /// The table with the entries at `i` and `j` changed places: each of the
    /// two holds what the other held, and every other entry stays. Where
    /// `i` and `j` are the same, the table stays as it is.
    pub open spec fn spec_exchanged(p: Seq<i32>, i: int, j: int) -> Seq<i32> {
        p.update(i, p[j]).update(j, p[i])
    }

    /// Changes the places of the entries at `i` and `j`, which must both be
    /// entries of the table. This is one step of a shuffle, for the entry
    /// that a sample has selected.
    pub fn exchange(p: &mut Vec<i32>, i: usize, j: usize)
        requires
            i < old(p)@.len(),
            j < old(p)@.len(),
        ensures
            final(p)@ == Perlin::spec_exchanged(old(p)@, i as int, j as int),
    {
        let a: i32 = p[i];
        let b: i32 = p[j];
        p.set(i, b);
        p.set(j, a);
    }

    /// Shuffles the first `n` entries: from the last down, each changes
    /// places with the entry at or before it that a random sample selects.
    pub fn permute(p: &mut Vec<i32>, n: usize)
        requires
            n <= old(p)@.len(),
            n <= 0x4000_0000,
        ensures
            exists|samples: Seq<Fixed>|
                samples.len() == n && all_unit_samples(samples) && final(p)@
                    == #[trigger] spec_shuffled(old(p)@, n as nat, samples, n as nat),
            final(p)@.len() == old(p)@.len(),
            final(p)@.to_multiset() == old(p)@.to_multiset(),
            in_lattice(old(p)@) ==> in_lattice(final(p)@),
            final(p)@.subrange(n as int, old(p)@.len() as int) == old(p)@.subrange(
                n as int,
                old(p)@.len() as int,
            ),
    {
        let ghost first = p@;
        let ghost mut samples: Seq<Fixed> = Seq::empty();
        let mut i: usize = n;
        while i > 0
            invariant
                i <= n <= p@.len(),
                n <= 0x4000_0000,
                p@.len() == first.len(),
                samples.len() == n - i,
                all_unit_samples(samples),
                p@ == spec_shuffled(first, n as nat, samples, (n - i) as nat),
                p@.to_multiset() == first.to_multiset(),
                in_lattice(first) ==> in_lattice(p@),
                p@.subrange(n as int, p@.len() as int) == first.subrange(
                    n as int,
                    first.len() as int,
                ),
            decreases i,
        {
            i -= 1;
            let drawn: i32 = random_int(0, i as i32);
            let target: usize = drawn as usize;
            let ghost before = p@;
            Self::exchange(p, i, target);
            proof {
                let sample = choose|sample: Fixed|
                    is_unit_sample(sample) && drawn == spec_int_in_range(0, i as i32, sample);
                let longer = samples.push(sample);
                lemma_shuffled_prefix(first, n as nat, samples, longer, (n - i - 1) as nat);
                assert(longer[n - i - 1] == sample);
                assert(spec_partner(i as int, sample) == target);
                assert(p@ == spec_shuffled(first, n as nat, longer, (n - i) as nat));
                samples = longer;
                let a = before[i as int];
                let b = before[target as int];
                let mid = before.update(i as int, b);
                assert(p@ == mid.update(target as int, a));
                broadcast use vstd::multiset::group_multiset_axioms;
                vstd::seq_lib::to_multiset_update(before, i as int, b);
                vstd::seq_lib::to_multiset_update(mid, target as int, a);
                vstd::seq_lib::to_multiset_contains(before, a);
                vstd::seq_lib::to_multiset_contains(before, b);
                assert(before.contains(a));
                assert(before.contains(b));
                assert(p@.to_multiset() =~= before.to_multiset());
                assert(p@.subrange(n as int, p@.len() as int) =~= before.subrange(
                    n as int,
                    before.len() as int,
                ));
            }
        }
        assert(samples.len() == n && all_unit_samples(samples) && p@ == spec_shuffled(
            first,
            n as nat,
            samples,
            n as nat,
        ));
    }

    /// A random permutation of `0..256`: the numbers in order, shuffled with
    /// one unit sample for each.
    pub fn perlin_generate_perm() -> (p: Vec<i32>)
        ensures
            p@.len() == POINT_COUNT,
            p@.to_multiset() == identity_table(POINT_COUNT as nat).to_multiset(),
            in_lattice(p@),
            exists|samples: Seq<Fixed>|
                samples.len() == POINT_COUNT && all_unit_samples(samples) && p@
                    == #[trigger] spec_shuffled(
                    identity_table(POINT_COUNT as nat),
                    POINT_COUNT as nat,
                    samples,
                    POINT_COUNT as nat,
                ),
    {
        let mut p: Vec<i32> = Vec::with_capacity(POINT_COUNT);
        let mut i: usize = 0;
        while i < POINT_COUNT
            invariant
                i <= POINT_COUNT,
                p@ == identity_table(i as nat),
            decreases POINT_COUNT - i,
        {
            p.push(i as i32);
            assert(p@ =~= identity_table((i + 1) as nat));
            i += 1;
        }
        Self::permute(&mut p, POINT_COUNT);
        p
    }
}

/// The entry that the unit sample `s` selects to change places with the
/// entry at `i`: the integer it selects among `0..=i`.
pub open spec fn spec_partner(i: int, s: Fixed) -> int {
    spec_int_in_range(0, i as i32, s) as int
}

/// The table after the first `k` steps of the shuffle of its first `n`
/// entries: step `k` changes the places of the entry at `n - k` and of the
/// one that the sample `samples[k - 1]` selects at or before it.
pub open spec fn spec_shuffled(p: Seq<i32>, n: nat, samples: Seq<Fixed>, k: nat) -> Seq<i32>
    decreases k,
{
    if k == 0 || k > n {
        p
    } else {
        Perlin::spec_exchanged(
            spec_shuffled(p, n, samples, (k - 1) as nat),
            n - k,
            spec_partner(n - k, samples[k - 1]),
        )
    }
}

/// Whether every entry of the sequence is a unit sample.
pub open spec fn all_unit_samples(samples: Seq<Fixed>) -> bool {
    forall|k: int| 0 <= k < samples.len() ==> is_unit_sample(#[trigger] samples[k])
}

/// The first steps of a shuffle depend on the first samples only.
pub proof fn lemma_shuffled_prefix(
    p: Seq<i32>,
    n: nat,
    shorter: Seq<Fixed>,
    longer: Seq<Fixed>,
    k: nat,
)
    requires
        k <= shorter.len() <= longer.len(),
        forall|j: int| 0 <= j < shorter.len() ==> shorter[j] == longer[j],
    ensures
        spec_shuffled(p, n, shorter, k) == spec_shuffled(p, n, longer, k),
    decreases k,
{
    if k > 0 && k <= n {
        lemma_shuffled_prefix(p, n, shorter, longer, (k - 1) as nat);
    }
}

/// The coordinate modulo 256.
fn wrap256(v: i64) -> (r: usize)
    ensures
        r == (v as int) % 256,
        r < 256,
{
    let m: i64 = v % 256;
    if m < 0 {
        (m + 256) as usize
    } else {
        m as usize
    }
}

} // verus!
