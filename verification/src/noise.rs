//! Value noise on the fixed-point lattice.
//!
//! Every lattice point carries a value between minus one and one that
//! depends on the seed and the point alone. Between lattice points the
//! noise is blended with the smooth step, first along x, then along z.
//! Octaves double the frequency and halve the amplitude.

use vstd::prelude::*;
use crate::easings::{lemma_unit_cubic, smooth_step, smooth_step_spec};
use crate::scalar::{SCALE, floor_div, lemma_lerp_between, lerp, lerp_spec, product, product_spec,
    saturate, saturate_i128};

verus! {

/// How a noise sample meets the height that a vertex already has.
#[derive(Debug, Clone, Copy, PartialEq, Eq, Structural)]
pub enum NoiseBlend {
    /// The sample is added to the height.
    Add,
    /// The sample takes the place of the height.
    Replace,
}

/// The description of a noise stage.
#[derive(Debug, Clone, Copy, PartialEq, Eq, Structural)]
pub struct NoiseData {
    pub seed: u32,
    pub frequency: i64,
    pub amplitude: i64,
    pub octaves: u8,
    pub blend: NoiseBlend,
}

/// A noise stage, ready to be sampled.
#[derive(Debug, Clone, Copy, PartialEq, Eq, Structural)]
pub struct Noise {
    pub seed: u32,
    pub frequency: i64,
    pub amplitude: i64,
    pub octaves: u8,
    pub blend: NoiseBlend,
}

/// Scrambles the bits of `v`.
pub open spec fn mix_spec(v: u64) -> u64 {
    let a = v ^ (v >> 33);
    let b = a.wrapping_mul(0xff51_afd7_ed55_8ccd);
    let c = b ^ (b >> 33);
    let d = c.wrapping_mul(0xc4ce_b9fe_1a85_ec53);
    d ^ (d >> 33)
}

/// A lattice index as an unsigned number.
pub open spec fn fold_spec(i: i64) -> u64 {
    (i + 0x8000_0000_0000_0000) as u64
}

/// The value that the lattice point `(ix, iz)` carries under `seed`,
/// between minus one and one.
pub open spec fn lattice_spec(seed: u32, ix: i64, iz: i64) -> int {
    let h = mix_spec(mix_spec(mix_spec(seed as u64) ^ fold_spec(ix)) ^ fold_spec(iz));
    (h % 2_000_001) - SCALE
}

/// The noise at the point `(x, z)` of the lattice's own space, between
/// minus one and one.
pub open spec fn value_noise_spec(seed: u32, x: i64, z: i64) -> int {
    let ix = (x as int) / (SCALE as int);
    let iz = (z as int) / (SCALE as int);
    let u = smooth_step_spec((x as int) % (SCALE as int));
    let w = smooth_step_spec((z as int) % (SCALE as int));
    let near = lerp_spec(
        lattice_spec(seed, ix as i64, iz as i64),
        lattice_spec(seed, (ix + 1) as i64, iz as i64),
        u,
    );
    let far = lerp_spec(
        lattice_spec(seed, ix as i64, (iz + 1) as i64),
        lattice_spec(seed, (ix + 1) as i64, (iz + 1) as i64),
        u,
    );
    lerp_spec(near, far, w)
}

/// The frequency of octave `k`: twice that of the octave before.
pub open spec fn octave_frequency(frequency: int, k: nat) -> int
    decreases k,
{
    if k == 0 {
        frequency
    } else {
        saturate(2 * octave_frequency(frequency, (k - 1) as nat))
    }
}

/// The amplitude of octave `k`: half that of the octave before.
pub open spec fn octave_amplitude(amplitude: int, k: nat) -> int
    decreases k,
{
    if k == 0 {
        amplitude
    } else {
        octave_amplitude(amplitude, (k - 1) as nat) / 2
    }
}

/// What octave `k` adds at the world point `(x, z)`.
pub open spec fn octave_spec(seed: u32, frequency: int, amplitude: int, x: int, z: int, k: nat) -> int {
    let f = octave_frequency(frequency, k);
    product_spec(
        octave_amplitude(amplitude, k),
        value_noise_spec(seed, product_spec(x, f) as i64, product_spec(z, f) as i64),
    )
}

/// The sum of the first `n` octaves at the world point `(x, z)`.
pub open spec fn octaves_spec(seed: u32, frequency: int, amplitude: int, x: int, z: int, n: nat) -> int
    decreases n,
{
    if n == 0 {
        0
    } else {
        octaves_spec(seed, frequency, amplitude, x, z, (n - 1) as nat) + octave_spec(
            seed,
            frequency,
            amplitude,
            x,
            z,
            (n - 1) as nat,
        )
    }
}

impl NoiseData {
    /// The stage that this description stands for.
    pub open spec fn set_spec(self) -> Noise {
        Noise {
            seed: self.seed,
            frequency: self.frequency,
            amplitude: self.amplitude,
            octaves: self.octaves,
            blend: self.blend,
        }
    }

    /// Makes the stage that this description stands for.
    pub fn set(&self) -> (r: Noise)
        ensures
            r == self.set_spec(),
    {
        Noise {
            seed: self.seed,
            frequency: self.frequency,
            amplitude: self.amplitude,
            octaves: self.octaves,
            blend: self.blend,
        }
    }
}

impl Noise {
    /// The noise of all octaves at the world point `(x, z)`.
    pub open spec fn sample_spec(self, x: int, z: int) -> int {
        saturate(
            octaves_spec(
                self.seed,
                self.frequency as int,
                self.amplitude as int,
                x,
                z,
                self.octaves as nat,
            ),
        )
    }

    /// The height that the stage gives a vertex at `(x, z)` of a plane at
    /// `(origin_x, origin_z)` that has the height `height`.
    pub open spec fn apply_spec(self, x: int, height: int, z: int, origin_x: int, origin_z: int) -> int {
        let n = self.sample_spec(saturate(x + origin_x), saturate(z + origin_z));
        match self.blend {
            NoiseBlend::Add => saturate(height + n),
            NoiseBlend::Replace => n,
        }
    }

    /// The noise of all octaves at the world point `(x, z)`.
    pub fn sample(&self, x: i64, z: i64) -> (r: i64)
        ensures
            r == self.sample_spec(x as int, z as int),
    {
        let mut total: i128 = 0;
        let mut frequency: i64 = self.frequency;
        let mut amplitude: i64 = self.amplitude;
        let mut k: u8 = 0;
        while k < self.octaves
            invariant
                k <= self.octaves,
                frequency == octave_frequency(self.frequency as int, k as nat),
                amplitude == octave_amplitude(self.amplitude as int, k as nat),
                total == octaves_spec(
                    self.seed,
                    self.frequency as int,
                    self.amplitude as int,
                    x as int,
                    z as int,
                    k as nat,
                ),
                -(k * 0x8000_0000_0000_0000) <= total <= k * 0x8000_0000_0000_0000,
            decreases self.octaves - k,
        {
            let v: i64 = value_noise(self.seed, product(x, frequency), product(z, frequency));
            let term: i64 = product(amplitude, v);
            total = total + (term as i128);
            frequency = saturate_i128(2 * (frequency as i128));
            amplitude = floor_div(amplitude as i128, 2) as i64;
            k = k + 1;
        }
        saturate_i128(total)
    }

    /// The height that the stage gives the vertex at `pos` of a plane whose
    /// origin is `loc`.
    pub fn apply(&self, pos: &[i64; 3], loc: &[i64; 3]) -> (r: i64)
        ensures
            r == self.apply_spec(pos[0] as int, pos[1] as int, pos[2] as int, loc[0] as int, loc[2] as int),
    {
        let x: i64 = saturate_i128((pos[0] as i128) + (loc[0] as i128));
        let z: i64 = saturate_i128((pos[2] as i128) + (loc[2] as i128));
        let n: i64 = self.sample(x, z);
        match self.blend {
            NoiseBlend::Add => saturate_i128((pos[1] as i128) + (n as i128)),
            NoiseBlend::Replace => n,
        }
    }
}

/// Scrambles the bits of `v`.
pub fn mix(v: u64) -> (r: u64)
    ensures
        r == mix_spec(v),
{
    let a: u64 = v ^ (v >> 33);
    let b: u64 = a.wrapping_mul(0xff51_afd7_ed55_8ccd);
    let c: u64 = b ^ (b >> 33);
    let d: u64 = c.wrapping_mul(0xc4ce_b9fe_1a85_ec53);
    d ^ (d >> 33)
}

/// The value that the lattice point `(ix, iz)` carries under `seed`.
pub fn lattice_value(seed: u32, ix: i64, iz: i64) -> (r: i64)
    ensures
        r == lattice_spec(seed, ix, iz),
        -SCALE <= r <= SCALE,
{
    let fx: u64 = ((ix as i128) + 0x8000_0000_0000_0000) as u64;
    let fz: u64 = ((iz as i128) + 0x8000_0000_0000_0000) as u64;
    let h: u64 = mix(mix(mix(seed as u64) ^ fx) ^ fz);
    ((h % 2_000_001) as i64) - SCALE
}

/// The noise at the point `(x, z)` of the lattice's own space.
pub fn value_noise(seed: u32, x: i64, z: i64) -> (r: i64)
    ensures
        r == value_noise_spec(seed, x, z),
        -SCALE <= r <= SCALE,
{
    let ix: i64 = floor_div(x as i128, SCALE as i128) as i64;
    let iz: i64 = floor_div(z as i128, SCALE as i128) as i64;
    proof {
        vstd::arithmetic::div_mod::lemma_fundamental_div_mod(x as int, SCALE as int);
        vstd::arithmetic::div_mod::lemma_mod_bound(x as int, SCALE as int);
        vstd::arithmetic::div_mod::lemma_fundamental_div_mod(z as int, SCALE as int);
        vstd::arithmetic::div_mod::lemma_mod_bound(z as int, SCALE as int);
        lemma_unit_cubic((x as int) % (SCALE as int));
        lemma_unit_cubic((z as int) % (SCALE as int));
        assert((ix as int) * (SCALE as int) == (SCALE as int) * ((x as int) / (SCALE as int)))
            by (nonlinear_arith)
            requires
                ix as int == (x as int) / (SCALE as int),
        ;
        assert((iz as int) * (SCALE as int) == (SCALE as int) * ((z as int) / (SCALE as int)))
            by (nonlinear_arith)
            requires
                iz as int == (z as int) / (SCALE as int),
        ;
    }
    let fx: i64 = ((x as i128) - (ix as i128) * (SCALE as i128)) as i64;
    let fz: i64 = ((z as i128) - (iz as i128) * (SCALE as i128)) as i64;
    let u: i64 = smooth_step(fx);
    let w: i64 = smooth_step(fz);
    let a: i64 = lattice_value(seed, ix, iz);
    let b: i64 = lattice_value(seed, ix + 1, iz);
    let c: i64 = lattice_value(seed, ix, iz + 1);
    let d: i64 = lattice_value(seed, ix + 1, iz + 1);
    proof {
        lemma_lerp_between(a as int, b as int, u as int);
        lemma_lerp_between(c as int, d as int, u as int);
    }
    let near: i64 = lerp(a, b, u);
    let far: i64 = lerp(c, d, u);
    proof {
        lemma_lerp_between(near as int, far as int, w as int);
    }
    lerp(near, far, w)
}

} // verus!
