//! The contract adapter: the four operations the host boundary sees.  Each
//! one decodes its byte payloads through the domain type's codec, drives the
//! composable-state capability, and encodes the results; decode failure
//! short-circuits with an error naming the payload that was malformed.

use vstd::prelude::*;

use crate::composable::ComposableState;
use crate::error::ContractError;
use crate::error::PayloadField;
use crate::registry::EntryV;
use crate::registry::RelatedContracts;
use crate::registry::mark_all;
use crate::registry::missing_spec;

verus! {

/// The outcome of a validation call: the state is valid, invalid, or cannot
/// be judged until the listed dependencies are supplied.
#[derive(Debug, PartialEq, Eq)]
pub enum ValidateResult {
    Valid,
    Invalid,
    RequestRelated(Vec<Vec<u8>>),
}

/// Mathematical value of a validation outcome.
pub enum ValidateResultV {
    Valid,
    Invalid,
    RequestRelated(Seq<Seq<u8>>),
}

impl View for ValidateResult {
    type V = ValidateResultV;

    open spec fn view(&self) -> ValidateResultV {
        match self {
            ValidateResult::Valid => ValidateResultV::Valid,
            ValidateResult::Invalid => ValidateResultV::Invalid,
            ValidateResult::RequestRelated(ids) => ValidateResultV::RequestRelated(
                ids@.map_values(|v: Vec<u8>| v@),
            ),
        }
    }
}

/// One entry of an update batch: a delta to fold in, or a complete
/// replacement state, as an encoded payload.
#[derive(Debug, PartialEq, Eq)]
pub enum UpdateData {
    Delta(Vec<u8>),
    State(Vec<u8>),
}

/// Mathematical value of an update entry.
pub enum UpdateDataV {
    Delta(Seq<u8>),
    State(Seq<u8>),
}

impl View for UpdateData {
    type V = UpdateDataV;

    open spec fn view(&self) -> UpdateDataV {
        match self {
            UpdateData::Delta(b) => UpdateDataV::Delta(b@),
            UpdateData::State(b) => UpdateDataV::State(b@),
        }
    }
}

/// The mathematical values of a whole update batch, in order.
pub open spec fn updates_view(s: Seq<UpdateData>) -> Seq<UpdateDataV> {
    s.map_values(|u: UpdateData| u@)
}

/// The result of a successful update: the encoded final state, and its
/// encoded summary for the host to propagate.
#[derive(Debug, PartialEq, Eq)]
pub struct UpdateModification {
    pub new_state: Vec<u8>,
    pub new_summary: Vec<u8>,
}

/// Mathematical value of an update result.
pub struct UpdateModificationV {
    pub new_state: Seq<u8>,
    pub new_summary: Seq<u8>,
}

impl View for UpdateModification {
    type V = UpdateModificationV;

    open spec fn view(&self) -> UpdateModificationV {
        UpdateModificationV { new_state: self.new_state@, new_summary: self.new_summary@ }
    }
}

/// What a validation call returns, as a mathematical value.
pub enum ValidateSpec {
    DecodeFail(PayloadField),
    Done(ValidateResultV),
}

/// The exact meaning of `validate_state`: decode the state, then the
/// parameters; mark the dependencies verification consults; if any
/// consulted dependency has no supplied state, request exactly those, in
/// registry order, whatever verification itself concluded; otherwise the
/// verification verdict decides.
pub open spec fn validate_state_spec<T: ComposableState>(
    params: Seq<u8>,
    state: Seq<u8>,
    reg: Seq<EntryV>,
) -> ValidateSpec {
    match T::decode_state_spec(state) {
        None => ValidateSpec::DecodeFail(PayloadField::CurrentState),
        Some(s) => match T::decode_params_spec(params) {
            None => ValidateSpec::DecodeFail(PayloadField::Parameters),
            Some(p) => {
                let marked = mark_all(reg, T::deps_spec(s, p));
                let miss = missing_spec(marked);
                if miss.len() > 0 {
                    ValidateSpec::Done(ValidateResultV::RequestRelated(miss))
                } else if T::verify_ok_spec(s, marked, p) {
                    ValidateSpec::Done(ValidateResultV::Valid)
                } else {
                    ValidateSpec::Done(ValidateResultV::Invalid)
                }
            },
        },
    }
}

/// Validation completeness: over a registry as the host supplies it —
/// nothing consulted yet — a validation call on decodable payloads requests
/// related state exactly when verification consults an identifier that has
/// no supplied state, and then lists exactly the consulted identifiers that
/// are unresolved, whatever verification itself concluded.  When every
/// consulted identifier is resolved, the verification verdict alone decides
/// between valid and invalid; in particular, a state whose verification
/// consults nothing never has related state requested.
pub proof fn lemma_validation_completeness<T: ComposableState>(
    params: Seq<u8>,
    state: Seq<u8>,
    reg: Seq<EntryV>,
    s: <T as View>::V,
    p: <<T as ComposableState>::Params as View>::V,
)
    requires
        T::decode_state_spec(state) == Some(s),
        T::decode_params_spec(params) == Some(p),
        forall|i: int| 0 <= i < reg.len() ==> !(#[trigger] reg[i]).needed,
    ensures
        (forall|id: Seq<u8>|
            !(#[trigger] T::deps_spec(s, p).contains(id) && crate::registry::unresolved_in(
                reg,
                id,
            ))) ==> validate_state_spec::<T>(params, state, reg) == ValidateSpec::Done(
            if T::verify_ok_spec(s, mark_all(reg, T::deps_spec(s, p)), p) {
                ValidateResultV::Valid
            } else {
                ValidateResultV::Invalid
            },
        ),
        (exists|id: Seq<u8>|
            #[trigger] T::deps_spec(s, p).contains(id) && crate::registry::unresolved_in(reg, id))
            ==> (validate_state_spec::<T>(params, state, reg) matches ValidateSpec::Done(
            ValidateResultV::RequestRelated(m),
        ) && (forall|id: Seq<u8>|
            #[trigger] m.contains(id) <==> T::deps_spec(s, p).contains(id)
                && crate::registry::unresolved_in(reg, id))),
{
    let deps = T::deps_spec(s, p);
    let marked = mark_all(reg, deps);
    let miss = missing_spec(marked);
    crate::registry::lemma_missing_empty_when_unconsulted(reg);
    crate::registry::lemma_mark_all_missing(reg, deps);
    assert(forall|id: Seq<u8>|
        #[trigger] miss.contains(id) <==> deps.contains(id) && crate::registry::unresolved_in(
            reg,
            id,
        ));
    if forall|id: Seq<u8>|
        !(#[trigger] deps.contains(id) && crate::registry::unresolved_in(reg, id)) {
        if miss.len() > 0 {
            assert(miss.contains(miss[0]));
        }
    } else {
        let id = choose|id: Seq<u8>|
            #[trigger] deps.contains(id) && crate::registry::unresolved_in(reg, id);
        assert(miss.contains(id));
    }
}

/// The exact meaning of `summarize_state`: decode the state, then the
/// parameters; the result is the canonical encoding of the state's summary.
pub open spec fn summarize_state_spec<T: ComposableState>(params: Seq<u8>, state: Seq<u8>) -> Result<
    Seq<u8>,
    PayloadField,
> {
    match T::decode_state_spec(state) {
        None => Err(PayloadField::CurrentState),
        Some(s) => match T::decode_params_spec(params) {
            None => Err(PayloadField::Parameters),
            Some(p) => Ok(T::encode_summary_spec(T::summarize_spec(s, p))),
        },
    }
}

/// The exact meaning of `get_state_delta`: decode the state, the
/// parameters, then the peer summary; the result is the canonical encoding
/// of the delta toward the state.
pub open spec fn get_state_delta_spec<T: ComposableState>(
    params: Seq<u8>,
    state: Seq<u8>,
    summary: Seq<u8>,
) -> Result<Seq<u8>, PayloadField> {
    match T::decode_state_spec(state) {
        None => Err(PayloadField::CurrentState),
        Some(s) => match T::decode_params_spec(params) {
            None => Err(PayloadField::Parameters),
            Some(p) => match T::decode_summary_spec(summary) {
                None => Err(PayloadField::Summary),
                Some(su) => Ok(T::encode_delta_spec(T::delta_spec(s, p, su))),
            },
        },
    }
}

/// The outcome of folding an update batch, from entry `i` on.
pub enum FoldRes<SV> {
    /// Every entry folded in; this is the resulting state.
    Done(SV),
    /// The 0-indexed entry at this position failed to decode.
    BadDecode(int),
    /// The 0-indexed entry at this position was rejected by the capability.
    Rejected(int),
}

/// Left-to-right folding of an update batch: a delta entry is applied to
/// the state so far; a replacement entry is verified against an empty
/// registry and then substituted outright.  The first failing entry stops
/// the fold.
pub open spec fn fold_updates<T: ComposableState>(
    s: <T as View>::V,
    p: <<T as ComposableState>::Params as View>::V,
    ups: Seq<UpdateDataV>,
    i: int,
) -> FoldRes<<T as View>::V>
    decreases ups.len() - i,
{
    if i < 0 || i >= ups.len() {
        FoldRes::Done(s)
    } else {
        match ups[i] {
            UpdateDataV::Delta(b) => match T::decode_delta_spec(b) {
                None => FoldRes::BadDecode(i),
                Some(d) => match T::apply_delta_spec(s, p, d) {
                    None => FoldRes::Rejected(i),
                    Some(s2) => fold_updates::<T>(s2, p, ups, i + 1),
                },
            },
            UpdateDataV::State(b) => match T::decode_state_spec(b) {
                None => FoldRes::BadDecode(i),
                Some(s2) => if T::verify_ok_spec(
                    s2,
                    mark_all(Seq::empty(), T::deps_spec(s2, p)),
                    p,
                ) {
                    fold_updates::<T>(s2, p, ups, i + 1)
                } else {
                    FoldRes::Rejected(i)
                },
            },
        }
    }
}

/// What an update call returns, as a mathematical value.
pub enum UpdateSpec {
    DecodeFail(PayloadField),
    /// The 1-indexed entry at this position was rejected by the capability.
    Rejected(int),
    Done(UpdateModificationV),
}

/// The exact meaning of `update_state`: decode the state, then the
/// parameters; fold the batch left to right; the first failing entry aborts
/// the whole call, attributed to its 1-indexed position, and no state is
/// returned — prior successful entries are discarded with it.
pub open spec fn update_state_spec<T: ComposableState>(
    params: Seq<u8>,
    state: Seq<u8>,
    ups: Seq<UpdateDataV>,
) -> UpdateSpec {
    match T::decode_state_spec(state) {
        None => UpdateSpec::DecodeFail(PayloadField::CurrentState),
        Some(s0) => match T::decode_params_spec(params) {
            None => UpdateSpec::DecodeFail(PayloadField::Parameters),
            Some(p) => match fold_updates::<T>(s0, p, ups, 0) {
                FoldRes::Done(sf) => UpdateSpec::Done(
                    UpdateModificationV {
                        new_state: T::encode_state_spec(sf),
                        new_summary: T::encode_summary_spec(T::summarize_spec(sf, p)),
                    },
                ),
                FoldRes::BadDecode(i) => UpdateSpec::DecodeFail(
                    PayloadField::UpdateEntry((i + 1) as usize),
                ),
                FoldRes::Rejected(i) => UpdateSpec::Rejected(i + 1),
            },
        },
    }
}

/// The adapter for a composable domain state type `T`.
#[verifier::reject_recursive_types(T)]
pub struct Contract<T> {
    _marker: core::marker::PhantomData<T>,
}

impl<T: ComposableState> Contract<T> {
    /// Validates an encoded state against its parameters and the supplied
    /// related states, requesting the consulted-but-unresolved dependencies
    /// when verification could not see them.
    pub fn validate_state(
        parameters: Vec<u8>,
        state: Vec<u8>,
        related: RelatedContracts,
    ) -> (r: Result<ValidateResult, ContractError>)
        ensures
            match r {
                Ok(v) => validate_state_spec::<T>(parameters@, state@, related@)
                    == ValidateSpec::Done(v@),
                Err(e) => match e {
                    ContractError::Decode(f) => validate_state_spec::<T>(
                        parameters@,
                        state@,
                        related@,
                    ) == ValidateSpec::DecodeFail(f),
                    _ => false,
                },
            },
    {
        let st = match T::decode_state(&state) {
            Some(st) => st,
            None => {
                return Err(ContractError::Decode(PayloadField::CurrentState));
            },
        };
        let p = match T::decode_params(&parameters) {
            Some(p) => p,
            None => {
                return Err(ContractError::Decode(PayloadField::Parameters));
            },
        };
        let mut reg = related;
        let vres = st.verify(&mut reg, &p);
        let miss = reg.missing_ids();
        if miss.len() > 0 {
            Ok(ValidateResult::RequestRelated(miss))
        } else if vres.is_ok() {
            Ok(ValidateResult::Valid)
        } else {
            Ok(ValidateResult::Invalid)
        }
    }

    /// Summarizes an encoded state: decodes it with its parameters and
    /// returns the canonical encoding of its summary.
    pub fn summarize_state(parameters: Vec<u8>, state: Vec<u8>) -> (r: Result<
        Vec<u8>,
        ContractError,
    >)
        ensures
            match r {
                Ok(v) => summarize_state_spec::<T>(parameters@, state@) == Ok::<
                    Seq<u8>,
                    PayloadField,
                >(v@),
                Err(e) => match e {
                    ContractError::Decode(f) => summarize_state_spec::<T>(parameters@, state@)
                        == Err::<Seq<u8>, PayloadField>(f),
                    _ => false,
                },
            },
    {
        let st = match T::decode_state(&state) {
            Some(st) => st,
            None => {
                return Err(ContractError::Decode(PayloadField::CurrentState));
            },
        };
        let p = match T::decode_params(&parameters) {
            Some(p) => p,
            None => {
                return Err(ContractError::Decode(PayloadField::Parameters));
            },
        };
        let su = st.summarize(&p);
        Ok(T::encode_summary(&su))
    }

    /// Computes the encoded delta that advances a peer at the given encoded
    /// summary toward the given encoded state.
    pub fn get_state_delta(parameters: Vec<u8>, state: Vec<u8>, summary: Vec<u8>) -> (r: Result<
        Vec<u8>,
        ContractError,
    >)
        ensures
            match r {
                Ok(v) => get_state_delta_spec::<T>(parameters@, state@, summary@) == Ok::<
                    Seq<u8>,
                    PayloadField,
                >(v@),
                Err(e) => match e {
                    ContractError::Decode(f) => get_state_delta_spec::<T>(
                        parameters@,
                        state@,
                        summary@,
                    ) == Err::<Seq<u8>, PayloadField>(f),
                    _ => false,
                },
            },
    {
        let st = match T::decode_state(&state) {
            Some(st) => st,
            None => {
                return Err(ContractError::Decode(PayloadField::CurrentState));
            },
        };
        let p = match T::decode_params(&parameters) {
            Some(p) => p,
            None => {
                return Err(ContractError::Decode(PayloadField::Parameters));
            },
        };
        let su = match T::decode_summary(&summary) {
            Some(su) => su,
            None => {
                return Err(ContractError::Decode(PayloadField::Summary));
            },
        };
        let d = st.delta(&p, &su);
        Ok(T::encode_delta(&d))
    }

    /// Folds an ordered batch of updates into an encoded state.  The call
    /// is atomic: the first entry that fails to decode or is rejected by
    /// the capability aborts it, attributed to that entry's 1-indexed
    /// position, and no state is returned.
    pub fn update_state(parameters: Vec<u8>, state: Vec<u8>, data: Vec<UpdateData>) -> (r: Result<
        UpdateModification,
        ContractError,
    >)
        ensures
            match r {
                Ok(m) => update_state_spec::<T>(parameters@, state@, updates_view(data@))
                    == UpdateSpec::Done(m@),
                Err(e) => match e {
                    ContractError::Decode(f) => update_state_spec::<T>(
                        parameters@,
                        state@,
                        updates_view(data@),
                    ) == UpdateSpec::DecodeFail(f),
                    ContractError::Domain { index, source } => update_state_spec::<T>(
                        parameters@,
                        state@,
                        updates_view(data@),
                    ) == UpdateSpec::Rejected(index as int),
                },
            },
    {
        let mut cur = match T::decode_state(&state) {
            Some(st) => st,
            None => {
                return Err(ContractError::Decode(PayloadField::CurrentState));
            },
        };
        let p = match T::decode_params(&parameters) {
            Some(p) => p,
            None => {
                return Err(ContractError::Decode(PayloadField::Parameters));
            },
        };
        let ghost s0 = cur@;
        let ghost pv = p@;
        let ghost ups = updates_view(data@);
        let mut k: usize = 0;
        while k < data.len()
            invariant
                k <= data@.len(),
                ups == updates_view(data@),
                ups.len() == data@.len(),
                T::state_wf(cur@),
                T::params_wf(pv),
                pv == p@,
                T::decode_state_spec(state@) == Some(s0),
                T::decode_params_spec(parameters@) == Some(pv),
                fold_updates::<T>(s0, pv, ups, 0) == fold_updates::<T>(cur@, pv, ups, k as int),
            decreases data@.len() - k,
        {
            proof {
                assert(ups[k as int] == data@[k as int]@);
            }
            let entry = &data[k];
            match entry {
                UpdateData::Delta(b) => {
                    match T::decode_delta(b) {
                        None => {
                            proof {
                                assert(fold_updates::<T>(cur@, pv, ups, k as int)
                                    == FoldRes::<<T as View>::V>::BadDecode(k as int));
                            }
                            return Err(
                                ContractError::Decode(PayloadField::UpdateEntry(k + 1)),
                            );
                        },
                        Some(d) => {
                            let ghost prev = cur@;
                            match cur.apply_delta(&p, &d) {
                                Ok(_) => {
                                    proof {
                                        assert(fold_updates::<T>(prev, pv, ups, k as int)
                                            == fold_updates::<T>(cur@, pv, ups, k as int + 1));
                                    }
                                },
                                Err(e) => {
                                    proof {
                                        assert(fold_updates::<T>(cur@, pv, ups, k as int)
                                            == FoldRes::<<T as View>::V>::Rejected(k as int));
                                    }
                                    return Err(
                                        ContractError::Domain { index: k + 1, source: e },
                                    );
                                },
                            }
                        },
                    }
                },
                UpdateData::State(b) => {
                    match T::decode_state(b) {
                        None => {
                            proof {
                                assert(fold_updates::<T>(cur@, pv, ups, k as int)
                                    == FoldRes::<<T as View>::V>::BadDecode(k as int));
                            }
                            return Err(
                                ContractError::Decode(PayloadField::UpdateEntry(k + 1)),
                            );
                        },
                        Some(s2) => {
                            let mut fresh = RelatedContracts::new();
                            match s2.verify(&mut fresh, &p) {
                                Ok(_) => {
                                    proof {
                                        assert(fold_updates::<T>(cur@, pv, ups, k as int)
                                            == fold_updates::<T>(s2@, pv, ups, k as int + 1));
                                    }
                                    cur = s2;
                                },
                                Err(e) => {
                                    proof {
                                        assert(fold_updates::<T>(cur@, pv, ups, k as int)
                                            == FoldRes::<<T as View>::V>::Rejected(k as int));
                                    }
                                    return Err(
                                        ContractError::Domain { index: k + 1, source: e },
                                    );
                                },
                            }
                        },
                    }
                },
            }
            k += 1;
        }
        proof {
            assert(fold_updates::<T>(cur@, pv, ups, k as int)
                == FoldRes::<<T as View>::V>::Done(cur@));
        }
        let out_state = cur.encode_state();
        let su = cur.summarize(&p);
        let out_summary = T::encode_summary(&su);
        Ok(UpdateModification { new_state: out_state, new_summary: out_summary })
    }
}

} // verus!
