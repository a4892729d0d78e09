//! The pluggable transformation contract and the module interface.
//!
//! A transformation is invoked once per block with a mutable sample block and
//! a snapshot of the current parameter values. It must keep the block's
//! length: it rewrites samples in place and never grows or shrinks the block.

use vstd::prelude::*;

use crate::audio_app::{AudioAppBuilder, ParamValue};

verus! {

/// A per-block sample transformation driven by a parameter snapshot.
///
/// `spec_transform` is the mathematical meaning of one invocation; the
/// executable `transform` must produce exactly that, and every
/// transformation must preserve the block length (`transform_len`).
pub trait Transformation: Sized {
    /// What one invocation turns `block` into, given the snapshot `params`.
    spec fn spec_transform(&self, block: Seq<i16>, params: Seq<ParamValue>) -> Seq<i16>;

    /// A transformation never changes the number of samples in a block.
    proof fn transform_len(&self, block: Seq<i16>, params: Seq<ParamValue>)
        ensures
            self.spec_transform(block, params).len() == block.len(),
    ;

    /// Rewrites `block` in place according to the parameter snapshot.
    fn transform(&self, block: &mut Vec<i16>, params: &Vec<ParamValue>)
        ensures
            final(block)@ == self.spec_transform(old(block)@, params@),
    ;
}

/// A selectable processing module: a name for display and an initializer
/// that declares the module's parameters and window setup.
pub trait DSPModule: Sized {
    fn name(&self) -> String;

    fn initialize(&self) -> AudioAppBuilder;
}

} // verus!
