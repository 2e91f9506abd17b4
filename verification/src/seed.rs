//! Stable feature-seed derivation for procedural generation.
//!
//! New procedural features derive independent sub-seeds from the
//! user-visible base seed plus a versioned namespace: FNV-1a over a fixed
//! domain tag, the little-endian base seed and the namespace bytes, followed
//! by a SplitMix64 avalanche.

use vstd::prelude::*;
use vstd::string::StringSliceAdditionalSpecFns;

verus! {

pub const FNV_OFFSET_BASIS: u64 = 0xcbf29ce484222325;

pub const FNV_PRIME: u64 = 0x100000001b3;

/// Domain tag prefixed to every feature-seed derivation.
pub const FEATURE_SEED_DOMAIN_V1: &'static str = "astrofetch.feature-seed.v1\0";

/// Versioned namespace reserved for the barred-spiral feature.
pub const SPIRAL_BAR_V1: &'static str = "spiral/bar/v1";

/// Versioned namespace of the presentation-only star twinkle.
pub const ANIMATION_STAR_TWINKLE_V1: &'static str = "animation/star-twinkle/v1";

/// Versioned namespace of the presentation-only star micro-motion.
pub const ANIMATION_STAR_MOTION_V1: &'static str = "animation/star-motion/v1";

/// Versioned namespace of the elliptical morphology parameters.
pub const ELLIPTICAL_MORPHOLOGY_V2: &'static str = "elliptical/morphology/v2";

pub open spec fn wmul(a: u64, b: u64) -> u64 {
    vstd::wrapping::u64_specs::wrapping_mul(a, b)
}

pub open spec fn wadd(a: u64, b: u64) -> u64 {
    vstd::wrapping::u64_specs::wrapping_add(a, b)
}

/// One FNV-1a step over a single byte.
pub open spec fn fnv1a_step(hash: u64, byte: u8) -> u64 {
    wmul(hash ^ (byte as u64), FNV_PRIME)
}

/// FNV-1a over a byte sequence, starting from `hash`.
pub open spec fn fnv1a(hash: u64, bytes: Seq<u8>) -> u64
    decreases bytes.len(),
{
    if bytes.len() == 0 {
        hash
    } else {
        fnv1a_step(fnv1a(hash, bytes.drop_last()), bytes.last())
    }
}

/// The SplitMix64 finaliser.
pub open spec fn splitmix64_spec(value: u64) -> u64 {
    let v1 = wadd(value, 0x9e3779b97f4a7c15);
    let v2 = wmul(v1 ^ (v1 >> 30u64), 0xbf58476d1ce4e5b9);
    let v3 = wmul(v2 ^ (v2 >> 27u64), 0x94d049bb133111eb);
    v3 ^ (v3 >> 31u64)
}

/// The eight little-endian bytes of `value`.
pub open spec fn le_bytes(value: u64) -> Seq<u8> {
    Seq::new(8, |i: int| ((value >> (8 * i) as u64) & 0xff) as u8)
}

/// The feature seed of `base_seed` in the namespace whose UTF-8 bytes are
/// `namespace`.
pub open spec fn feature_seed_spec(base_seed: u64, namespace: Seq<u8>) -> u64 {
    splitmix64_spec(
        fnv1a(
            FNV_OFFSET_BASIS,
            FEATURE_SEED_DOMAIN_V1.spec_bytes() + le_bytes(base_seed) + namespace,
        ),
    )
}

/// Seed context shared with procedural generators without exposing or
/// advancing the scene's generation RNG.
#[derive(Debug, Clone, Copy, PartialEq, Eq)]
pub struct GenerationContext {
    base_seed: u64,
}

impl GenerationContext {
    pub closed spec fn spec_base_seed(self) -> u64 {
        self.base_seed
    }

    pub fn new(base_seed: u64) -> (ctx: Self)
        ensures
            ctx.spec_base_seed() == base_seed,
    {
        Self { base_seed }
    }

    pub fn base_seed(self) -> (seed: u64)
        ensures
            seed == self.spec_base_seed(),
    {
        self.base_seed
    }

    pub fn feature_seed(self, namespace: &str) -> (seed: u64)
        ensures
            seed == feature_seed_spec(self.spec_base_seed(), namespace.spec_bytes()),
    {
        derive_feature_seed(self.base_seed, namespace)
    }
}

/// Derives a stable feature seed from a scene seed and a versioned
/// namespace (FNV-1a then SplitMix64; no randomized hash state involved).
pub fn derive_feature_seed(base_seed: u64, namespace: &str) -> (seed: u64)
    ensures
        seed == feature_seed_spec(base_seed, namespace.spec_bytes()),
{
    let domain = FEATURE_SEED_DOMAIN_V1.as_bytes();
    let base = le_bytes_of(base_seed);
    let name = namespace.as_bytes();
    let h0 = fnv1a_update(FNV_OFFSET_BASIS, domain);
    let h1 = fnv1a_update(h0, base.as_slice());
    let h2 = fnv1a_update(h1, name);
    proof {
        lemma_fnv1a_concat(FNV_OFFSET_BASIS, domain@, base@);
        lemma_fnv1a_concat(FNV_OFFSET_BASIS, domain@ + base@, name@);
    }
    splitmix64(h2)
}

/// FNV-1a over a concatenation is FNV-1a over the second part, started from
/// the hash of the first part.
pub proof fn lemma_fnv1a_concat(hash: u64, a: Seq<u8>, b: Seq<u8>)
    ensures
        fnv1a(hash, a + b) == fnv1a(fnv1a(hash, a), b),
    decreases b.len(),
{
    if b.len() == 0 {
        assert(a + b =~= a);
    } else {
        lemma_fnv1a_concat(hash, a, b.drop_last());
        assert((a + b).drop_last() =~= a + b.drop_last());
        assert((a + b).last() == b.last());
    }
}

fn le_bytes_of(value: u64) -> (bytes: Vec<u8>)
    ensures
        bytes@ == le_bytes(value),
{
    let mut bytes: Vec<u8> = Vec::new();
    let mut i: u64 = 0;
    while i < 8
        invariant
            i <= 8,
            bytes@.len() == i,
            forall|j: int| 0 <= j < i ==> bytes@[j] == le_bytes(value)[j],
        decreases 8 - i,
    {
        let b: u64 = (value >> (8 * i)) & 0xff;
        assert(((value >> (8 * i)) & 0xff) <= 0xff) by (bit_vector);
        bytes.push(b as u8);
        i = i + 1;
    }
    assert(bytes@ =~= le_bytes(value));
    bytes
}

fn fnv1a_update(hash: u64, bytes: &[u8]) -> (h: u64)
    ensures
        h == fnv1a(hash, bytes@),
{
    let mut h = hash;
    let mut i: usize = 0;
    while i < bytes.len()
        invariant
            i <= bytes@.len(),
            h == fnv1a(hash, bytes@.take(i as int)),
        decreases bytes@.len() - i,
    {
        assert(bytes@.take(i + 1).drop_last() =~= bytes@.take(i as int));
        h = (h ^ (bytes[i] as u64)).wrapping_mul(FNV_PRIME);
        i = i + 1;
    }
    assert(bytes@.take(bytes@.len() as int) =~= bytes@);
    h
}

fn splitmix64(value: u64) -> (r: u64)
    ensures
        r == splitmix64_spec(value),
{
    let mut v = value.wrapping_add(0x9e3779b97f4a7c15);
    v = (v ^ (v >> 30)).wrapping_mul(0xbf58476d1ce4e5b9);
    v = (v ^ (v >> 27)).wrapping_mul(0x94d049bb133111eb);
    v ^ (v >> 31)
}

} // verus!
