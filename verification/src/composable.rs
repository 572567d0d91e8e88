//! The composable-state capability: the polymorphic contract a domain state
//! type satisfies so that the adapter can validate it, summarize it, compute
//! deltas against peer summaries, and fold updates into it.
//!
//! Each exec obligation is pinned to a spec-level counterpart the
//! implementing type defines, so the adapter's own contracts can speak about
//! any domain type exactly.

use vstd::prelude::*;

use crate::error::DomainError;
use crate::registry::EntryV;
use crate::registry::RelatedContracts;
use crate::registry::mark_all;

verus! {

/// The capability set a domain state type offers.
///
/// The byte encodings of the four payload kinds are the domain type's own;
/// the adapter only relies on the contracts below.  Only `verify` sees the
/// related-state registry: summaries and deltas are self-contained by
/// design, so the other operations take no dependency context at all.
pub trait ComposableState: View + Sized {
    /// The decoded configuration of one contract instance.
    type Params: View;

    /// The compact digest of a state.
    type Summary: View;

    /// The difference sufficient to advance a peer toward this state.
    type Delta: View;

    /// Which mathematical state values are well formed.
    spec fn state_wf(s: Self::V) -> bool;

    /// Which mathematical parameter values are well formed.
    spec fn params_wf(p: <Self::Params as View>::V) -> bool;

    /// Which mathematical summary values are well formed.
    spec fn summary_wf(su: <Self::Summary as View>::V) -> bool;

    /// Which mathematical delta values are well formed.
    spec fn delta_wf(d: <Self::Delta as View>::V) -> bool;

    /// What a state payload decodes to, if anything.
    spec fn decode_state_spec(b: Seq<u8>) -> Option<Self::V>;

    /// The canonical encoding of a state.
    spec fn encode_state_spec(s: Self::V) -> Seq<u8>;

    /// What a parameters payload decodes to, if anything.
    spec fn decode_params_spec(b: Seq<u8>) -> Option<<Self::Params as View>::V>;

    /// What a summary payload decodes to, if anything.
    spec fn decode_summary_spec(b: Seq<u8>) -> Option<<Self::Summary as View>::V>;

    /// The canonical encoding of a summary.
    spec fn encode_summary_spec(su: <Self::Summary as View>::V) -> Seq<u8>;

    /// What a delta payload decodes to, if anything.
    spec fn decode_delta_spec(b: Seq<u8>) -> Option<<Self::Delta as View>::V>;

    /// The canonical encoding of a delta.
    spec fn encode_delta_spec(d: <Self::Delta as View>::V) -> Seq<u8>;

    /// The dependency identifiers verification consults, in order.
    spec fn deps_spec(s: Self::V, p: <Self::Params as View>::V) -> Seq<Seq<u8>>;

    /// Whether verification succeeds against the given registry contents.
    spec fn verify_ok_spec(s: Self::V, reg: Seq<EntryV>, p: <Self::Params as View>::V) -> bool;

    /// The summary of a state: a pure function of state and parameters.
    spec fn summarize_spec(s: Self::V, p: <Self::Params as View>::V) -> <Self::Summary as View>::V;

    /// The delta that advances a peer whose state matches `su` toward `s`.
    spec fn delta_spec(
        s: Self::V,
        p: <Self::Params as View>::V,
        su: <Self::Summary as View>::V,
    ) -> <Self::Delta as View>::V;

    /// The state after folding `d` into `s`, or `None` when the delta is
    /// inapplicable.
    spec fn apply_delta_spec(
        s: Self::V,
        p: <Self::Params as View>::V,
        d: <Self::Delta as View>::V,
    ) -> Option<Self::V>;

    /// Decodes a state payload; well-formed results, exactly when the spec
    /// decoder accepts.
    fn decode_state(b: &Vec<u8>) -> (r: Option<Self>)
        ensures
            match r {
                Some(s) => Self::decode_state_spec(b@) == Some(s@) && Self::state_wf(s@),
                None => Self::decode_state_spec(b@) is None,
            },
    ;

    /// Encodes a state canonically.
    fn encode_state(&self) -> (r: Vec<u8>)
        requires
            Self::state_wf(self@),
        ensures
            r@ == Self::encode_state_spec(self@),
    ;

    /// Decodes a parameters payload.
    fn decode_params(b: &Vec<u8>) -> (r: Option<Self::Params>)
        ensures
            match r {
                Some(p) => Self::decode_params_spec(b@) == Some(p@) && Self::params_wf(p@),
                None => Self::decode_params_spec(b@) is None,
            },
    ;

    /// Decodes a summary payload.
    fn decode_summary(b: &Vec<u8>) -> (r: Option<Self::Summary>)
        ensures
            match r {
                Some(su) => Self::decode_summary_spec(b@) == Some(su@) && Self::summary_wf(su@),
                None => Self::decode_summary_spec(b@) is None,
            },
    ;

    /// Encodes a summary canonically.
    fn encode_summary(su: &Self::Summary) -> (r: Vec<u8>)
        requires
            Self::summary_wf(su@),
        ensures
            r@ == Self::encode_summary_spec(su@),
    ;

    /// Decodes a delta payload.
    fn decode_delta(b: &Vec<u8>) -> (r: Option<Self::Delta>)
        ensures
            match r {
                Some(d) => Self::decode_delta_spec(b@) == Some(d@) && Self::delta_wf(d@),
                None => Self::decode_delta_spec(b@) is None,
            },
    ;

    /// Encodes a delta canonically.
    fn encode_delta(d: &Self::Delta) -> (r: Vec<u8>)
        requires
            Self::delta_wf(d@),
        ensures
            r@ == Self::encode_delta_spec(d@),
    ;

    /// Verifies the state.  Through the registry it may record which
    /// dependencies it consulted — exactly the ones `deps_spec` lists — and
    /// its success is a pure function of state, parameters, and the
    /// registry contents after those marks.
    fn verify(&self, related: &mut RelatedContracts, params: &Self::Params) -> (r: Result<
        (),
        DomainError,
    >)
        requires
            Self::state_wf(self@),
            Self::params_wf(params@),
        ensures
            final(related)@ == mark_all(old(related)@, Self::deps_spec(self@, params@)),
            r is Ok <==> Self::verify_ok_spec(self@, final(related)@, params@),
    ;

    /// Summarizes the state; a pure, registry-free function.
    fn summarize(&self, params: &Self::Params) -> (r: Self::Summary)
        requires
            Self::state_wf(self@),
            Self::params_wf(params@),
        ensures
            r@ == Self::summarize_spec(self@, params@),
            Self::summary_wf(r@),
    ;

    /// Computes the delta that advances a peer at `summary` toward `self`.
    fn delta(&self, params: &Self::Params, summary: &Self::Summary) -> (r: Self::Delta)
        requires
            Self::state_wf(self@),
            Self::params_wf(params@),
            Self::summary_wf(summary@),
        ensures
            r@ == Self::delta_spec(self@, params@, summary@),
            Self::delta_wf(r@),
    ;

    /// Folds a delta into the state in place; leaves the state untouched
    /// and fails when the delta is inapplicable.
    fn apply_delta(&mut self, params: &Self::Params, d: &Self::Delta) -> (r: Result<
        (),
        DomainError,
    >)
        requires
            Self::state_wf(old(self)@),
            Self::params_wf(params@),
            Self::delta_wf(d@),
        ensures
            match Self::apply_delta_spec(old(self)@, params@, d@) {
                Some(s2) => r is Ok && final(self)@ == s2 && Self::state_wf(s2),
                None => r is Err && final(self)@ == old(self)@,
            },
    ;
}

} // verus!
