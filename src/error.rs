use vstd::prelude::*;

verus! {

/// Ways in which loading or activating a character can fail.
#[derive(Debug, Clone, Copy, PartialEq, Eq)]
pub enum PipelineError {
    /// A definition that should have been loaded could not be resolved.
    MissingAsset,
    /// No record was registered under the character's id.
    UnregisteredCharacter,
    /// The record holds no animation of the requested name.
    AnimationNotFound,
    /// The instantiated scene holds no node that can play animations.
    NoPlaybackNodeFound,
}

} // verus!
