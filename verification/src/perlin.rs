//! Permutation tables for gradient noise.
//!
//! Gradient noise hashes each lattice point of a 3D grid to one of 256
//! gradient directions.  The hash runs three shuffled permutation tables of
//! the indices 0..256, one per axis, XOR-combining the table entries of the
//! wrapped lattice coordinates.  This module builds the tables by an
//! in-place shuffle of the identity table and proves that what comes out is
//! a permutation, so every hash lands on a valid gradient index.  The
//! gradient vectors themselves, and the interpolation between them, are the
//! caller's numeric business.

use crate::rng::rand_below;
use vstd::prelude::*;

verus! {

broadcast use
    vstd::seq_lib::to_multiset_update,
    vstd::seq_lib::to_multiset_contains,
    vstd::multiset::group_multiset_axioms,
;

/// The identity table: entry `i` holds `i`, for `i` in 0..256.
pub open spec fn identity_perm() -> Seq<u32> {
    Seq::new(256, |i: int| i as u32)
}

/// The table holds each of the indices 0..256 exactly once.
pub open spec fn is_perlin_permutation(s: Seq<u32>) -> bool {
    &&& s.len() == 256
    &&& s.to_multiset() == identity_perm().to_multiset()
}

/// A lattice coordinate wrapped onto the 256-entry tables.
pub open spec fn wrap256(n: int) -> int {
    n % 256
}

/// Exchanges the entries at `i` and `j`, which reorders the vector but
/// keeps its contents.
fn vec_swap(v: &mut Vec<u32>, i: usize, j: usize)
    requires
        i < old(v)@.len(),
        j < old(v)@.len(),
    ensures
        final(v)@ == old(v)@.update(i as int, old(v)@[j as int]).update(
            j as int,
            old(v)@[i as int],
        ),
        final(v)@.to_multiset() == old(v)@.to_multiset(),
        final(v)@.len() == old(v)@.len(),
{
    let a: u32 = v[i];
    let b: u32 = v[j];
    v[i] = b;
    v[j] = a;
    proof {
        lemma_swap_preserves_multiset(old(v)@, i as int, j as int);
    }
}

/// Swapping two entries of a sequence does not change its multiset of
/// values.
proof fn lemma_swap_preserves_multiset(s: Seq<u32>, i: int, j: int)
    requires
        0 <= i < s.len(),
        0 <= j < s.len(),
    ensures
        s.update(i, s[j]).update(j, s[i]).to_multiset() == s.to_multiset(),
{
    if i == j {
        assert(s.update(i, s[j]).update(j, s[i]) =~= s);
    } else {
        let s1 = s.update(i, s[j]);
        let s2 = s1.update(j, s[i]);
        assert(s.contains(s[i]));
        assert(s.contains(s[j]));
        assert(s1.to_multiset() == s.to_multiset().insert(s[j]).remove(s[i]));
        assert(s2.to_multiset() == s1.to_multiset().insert(s[i]).remove(s1[j]));
        assert(s2.to_multiset() =~= s.to_multiset());
    }
}

/// Every entry of a permutation of 0..256 is itself below 256.
pub proof fn lemma_permutation_values_below(s: Seq<u32>)
    requires
        is_perlin_permutation(s),
    ensures
        forall|i: int| 0 <= i < s.len() ==> s[i] < 256,
{
    assert forall|i: int| 0 <= i < s.len() implies s[i] < 256 by {
        assert(s.contains(s[i]));
        assert(s.to_multiset().count(s[i]) > 0);
        assert(identity_perm().contains(s[i]));
        let k = choose|k: int| 0 <= k < identity_perm().len() && identity_perm()[k] == s[i];
        assert(s[i] == k as u32);
    }
}

/// The per-axis state of the noise hash: one shuffled permutation table for
/// each of the three axes.
pub struct Perlin {
    pub perm_x: Vec<u32>,
    pub perm_y: Vec<u32>,
    pub perm_z: Vec<u32>,
}

impl Perlin {
    /// All three tables are permutations of 0..256.
    pub open spec fn well_formed(self) -> bool {
        &&& is_perlin_permutation(self.perm_x@)
        &&& is_perlin_permutation(self.perm_y@)
        &&& is_perlin_permutation(self.perm_z@)
    }

    /// The gradient index of the lattice point `(i+di, j+dj, k+dk)`: the
    /// XOR of the three per-axis table entries at the wrapped coordinates.
    pub open spec fn gradient_index_spec(
        self,
        i: u32,
        j: u32,
        k: u32,
        di: u32,
        dj: u32,
        dk: u32,
    ) -> u32 {
        self.perm_x@[wrap256(i + di)] ^ self.perm_y@[wrap256(j + dj)] ^ self.perm_z@[wrap256(
            k + dk,
        )]
    }

    /// Builds one permutation table: the identity table shuffled in place,
    /// drawing the swap partner of each position from the generator.
    pub fn perlin_generate_perm(rng: &mut rand::rngs::StdRng) -> (p: Vec<u32>)
        ensures
            is_perlin_permutation(p@),
            forall|i: int| 0 <= i < p@.len() ==> p@[i] < 256,
    {
        let mut p: Vec<u32> = Vec::new();
        let mut i: u32 = 0;
        while i < 256
            invariant
                i <= 256,
                p@.len() == i,
                forall|k: int| 0 <= k < i ==> p@[k] == k as u32,
            decreases 256 - i,
        {
            p.push(i);
            i = i + 1;
        }
        proof {
            assert(p@ =~= identity_perm());
        }
        let mut i: u32 = 255;
        while i >= 1
            invariant
                i <= 255,
                p@.len() == 256,
                p@.to_multiset() == identity_perm().to_multiset(),
            decreases i,
        {
            let target: u32 = rand_below(rng, i);
            vec_swap(&mut p, i as usize, target as usize);
            i = i - 1;
        }
        proof {
            lemma_permutation_values_below(p@);
        }
        p
    }

    /// Fresh per-axis tables, shuffled from the given generator.
    pub fn new(rng: &mut rand::rngs::StdRng) -> (p: Perlin)
        ensures
            p.well_formed(),
    {
        let perm_x: Vec<u32> = Self::perlin_generate_perm(rng);
        let perm_y: Vec<u32> = Self::perlin_generate_perm(rng);
        let perm_z: Vec<u32> = Self::perlin_generate_perm(rng);
        Perlin { perm_x, perm_y, perm_z }
    }

    /// Hashes one corner of the lattice cell at `(i, j, k)` — the corner
    /// offset by `(di, dj, dk)`, each 0 or 1 — to a gradient index below
    /// 256.
    pub fn gradient_index(&self, i: u32, j: u32, k: u32, di: u32, dj: u32, dk: u32) -> (r: u32)
        requires
            self.well_formed(),
            di <= 1,
            dj <= 1,
            dk <= 1,
        ensures
            r == self.gradient_index_spec(i, j, k, di, dj, dk),
            r < 256,
    {
        proof {
            lemma_permutation_values_below(self.perm_x@);
            lemma_permutation_values_below(self.perm_y@);
            lemma_permutation_values_below(self.perm_z@);
        }
        let xi: usize = lattice_index(i, di);
        let yi: usize = lattice_index(j, dj);
        let zi: usize = lattice_index(k, dk);
        let a: u32 = self.perm_x[xi];
        let b: u32 = self.perm_y[yi];
        let c: u32 = self.perm_z[zi];
        proof {
            assert(a ^ b ^ c < 256) by (bit_vector)
                requires
                    a < 256,
                    b < 256,
                    c < 256,
            ;
        }
        a ^ b ^ c
    }
}

/// Adds a cell-corner offset to a lattice coordinate and wraps the sum onto
/// the 256-entry tables.
fn lattice_index(base: u32, step: u32) -> (r: usize)
    requires
        step <= 1,
    ensures
        r == wrap256(base + step),
        r < 256,
{
    let sum: u32 = if base == u32::MAX && step == 1 {
        0
    } else {
        base + step
    };
    proof {
        assert(sum & 255 == sum % 256 && sum & 255 < 256) by (bit_vector);
        if base == u32::MAX && step == 1 {
            assert(wrap256(base + step) == 0);
        }
    }
    let masked: u32 = sum & 255;
    masked as usize
}

} // verus!
