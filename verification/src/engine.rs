//! Scene resolution: turning a requested model and an optional seed into a
//! concrete model and a concrete seed.

use vstd::prelude::*;
use rand::{RngExt, SeedableRng, TryRng};
use crate::error::AppError;

verus! {

/// Art model of the engine.
#[derive(Debug, Clone, Copy, PartialEq, Eq, Structural)]
pub enum ArtModel {
    Random,
    Elliptical,
    Spiral,
    Cluster,
    Starfield,
}

/// A resolved scene request: a concrete seed and a concrete model.
#[derive(Debug, Clone, Copy, PartialEq, Eq)]
pub struct ResolvedScene {
    /// The concrete model to generate (never `Random`).
    pub resolved_model: ArtModel,
    /// The concrete seed shared by resolution and generation.
    pub seed: u64,
}

/// Number of concrete models a random request chooses from.
pub const MODEL_COUNT: usize = 4;

/// The index that a `StdRng` seeded with `seed` draws first from `0..4`.
pub uninterp spec fn seeded_model_draw(seed: u64) -> usize;

/// `StdRng::seed_from_u64(seed).random_range(0..4)`.
///
/// Trusted: the draw lies in `0..4` and depends on the seed alone (a seeded
/// `StdRng` is reproducible); which index a given seed draws is not stated.
#[verifier::external_body]
fn draw_model_index(seed: u64) -> (index: usize)
    ensures
        index < MODEL_COUNT,
        index == seeded_model_draw(seed),
{
    let mut rng = rand::rngs::StdRng::seed_from_u64(seed);
    rng.random_range(0..MODEL_COUNT)
}

/// The error of the operating system's random source.
#[verifier::external_type_specification]
#[verifier::external_body]
pub struct ExSysError(rand::rngs::SysError);

/// A fresh random seed from the operating system's random source
/// (`SysRng::try_next_u64`), or the source's error.
///
/// Trusted: nothing is stated about the value or about when the source
/// fails.
#[verifier::external_body]
fn draw_random_seed() -> (r: Result<u64, rand::rngs::SysError>) {
    rand::rngs::SysRng.try_next_u64()
}

/// The text of an error of the random source (its `Display`).
///
/// Trusted: nothing is stated about the text.
#[verifier::external_body]
fn random_source_error_text(e: &rand::rngs::SysError) -> (s: String) {
    e.to_string()
}

/// Prefix of the error reported when no random seed can be drawn.
pub const SEED_SOURCE_FAILURE: &'static str = "could not draw a random seed: ";

/// The concrete model at a draw index, in the order Starfield, Elliptical,
/// Spiral, Cluster.
pub open spec fn model_at(index: usize) -> ArtModel {
    if index == 0 {
        ArtModel::Starfield
    } else if index == 1 {
        ArtModel::Elliptical
    } else if index == 2 {
        ArtModel::Spiral
    } else {
        ArtModel::Cluster
    }
}

/// The resolution of `model` with the concrete seed `seed`.
pub open spec fn resolve_spec(model: ArtModel, seed: u64) -> ResolvedScene {
    ResolvedScene {
        resolved_model: if model == ArtModel::Random {
            model_at(seeded_model_draw(seed))
        } else {
            model
        },
        seed,
    }
}

/// The concrete model that a random request resolves to when the seeded
/// RNG draws `index`.
pub fn model_for_draw(index: usize) -> (model: ArtModel)
    requires
        index < MODEL_COUNT,
    ensures
        model == model_at(index),
{
    let models = [ArtModel::Starfield, ArtModel::Elliptical, ArtModel::Spiral, ArtModel::Cluster];
    models[index]
}

impl ArtModel {
    /// Resolves the requested model to a concrete one: a random request
    /// draws one of the four concrete models from the seeded RNG.
    fn resolve(&self, seed: u64) -> (model: ArtModel)
        ensures
            model == resolve_spec(*self, seed).resolved_model,
    {
        match self {
            ArtModel::Random => model_for_draw(draw_model_index(seed)),
            _ => *self,
        }
    }

    /// Resolves a scene request into a concrete seed (the given one, or a
    /// fresh random one drawn exactly once) and a concrete model. It fails
    /// only when no seed is given and the random source fails.
    pub fn resolve_scene(&self, seed: Option<u64>) -> (r: Result<ResolvedScene, AppError>)
        ensures
            seed is Some ==> r is Ok,
            match r {
                Ok(resolved) => {
                    &&& resolved == resolve_spec(*self, resolved.seed)
                    &&& (seed matches Some(s) ==> resolved.seed == s)
                    &&& resolved.resolved_model != ArtModel::Random
                    &&& (*self != ArtModel::Random ==> resolved.resolved_model == *self)
                },
                Err(e) => seed is None && (e matches AppError::Render(m) && SEED_SOURCE_FAILURE@.len()
                    <= m@.len() && m@.subrange(0, SEED_SOURCE_FAILURE@.len() as int)
                    == SEED_SOURCE_FAILURE@),
            },
    {
        let seed = match seed {
            Some(s) => s,
            None => match draw_random_seed() {
                Ok(s) => s,
                Err(e) => {
                    let detail = random_source_error_text(&e);
                    let mut m = String::new();
                    crate::text::push_str(&mut m, SEED_SOURCE_FAILURE);
                    crate::text::push_str(&mut m, detail.as_str());
                    proof {
                        assert(m@.subrange(0, SEED_SOURCE_FAILURE@.len() as int) =~= SEED_SOURCE_FAILURE@);
                    }
                    return Err(AppError::Render(m));
                },
            },
        };
        let resolved_model = self.resolve(seed);
        Ok(ResolvedScene { resolved_model, seed })
    }
}

/// Resolution keeps the seed, never leaves a model `Random`, and a random
/// request picks the model that the seed's draw selects.
pub proof fn lemma_resolution_deterministic(model: ArtModel, seed: u64)
    ensures
        model == ArtModel::Random ==> resolve_spec(model, seed).resolved_model == model_at(
            seeded_model_draw(seed),
        ),
        resolve_spec(model, seed).resolved_model != ArtModel::Random,
        resolve_spec(model, seed).seed == seed,
{
}

} // verus!
