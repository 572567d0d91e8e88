//! A small dependency-aware counter: a domain state type implementing the
//! composable-state capability.  Its state is a count plus an optional
//! dependency identifier; its summary is the count; its delta is a signed
//! amount to add.  The convergence laws of the capability are proved here
//! for this type.

use vstd::prelude::*;

use crate::bytes::bytes_append;
use crate::bytes::bytes_suffix;
use crate::bytes::le64_bytes;
use crate::bytes::le64_read;
use crate::bytes::le64_val;
use crate::bytes::le64_write;
use crate::bytes::lemma_le64_round_trip;
use crate::adapter::FoldRes;
use crate::adapter::UpdateDataV;
use crate::adapter::UpdateSpec;
use crate::adapter::fold_updates;
use crate::adapter::get_state_delta_spec;
use crate::adapter::update_state_spec;
use crate::composable::ComposableState;
use crate::error::DomainError;
use crate::registry::EntryV;
use crate::registry::RelatedContracts;
use crate::registry::lemma_mark_all_singleton;
use crate::registry::lookup_state;
use crate::registry::mark_all;

verus! {

/// Reason code: the count exceeds the configured maximum.
pub const COUNT_EXCEEDS_MAX: u64 = 1;

/// Reason code: the supplied state of the dependency is malformed.
pub const DEP_STATE_MALFORMED: u64 = 2;

/// Reason code: applying the delta would move the count out of range.
pub const DELTA_OUT_OF_RANGE: u64 = 3;

/// The counter's state: a count, and optionally the identifier of a related
/// state it depends on.
pub struct CounterState {
    pub count: u64,
    pub dep: Option<Vec<u8>>,
}

/// Mathematical value of a counter state.
pub struct CounterStateV {
    pub count: u64,
    pub dep: Option<Seq<u8>>,
}

impl View for CounterState {
    type V = CounterStateV;

    open spec fn view(&self) -> CounterStateV {
        CounterStateV {
            count: self.count,
            dep: match self.dep {
                Some(ref id) => Some(id@),
                None => None,
            },
        }
    }
}

/// The counter's parameters: an optional upper bound on the count.
#[derive(Clone, Copy, Debug, PartialEq, Eq, Structural)]
pub struct CounterParams {
    pub max_count: Option<u64>,
}

impl View for CounterParams {
    type V = CounterParams;

    open spec fn view(&self) -> CounterParams {
        *self
    }
}

/// The counter's summary: the count itself.
#[derive(Clone, Copy, Debug, PartialEq, Eq, Structural)]
pub struct CounterSummary {
    pub count: u64,
}

impl View for CounterSummary {
    type V = CounterSummary;

    open spec fn view(&self) -> CounterSummary {
        *self
    }
}

/// The counter's delta: a signed amount to add to the count.
#[derive(Clone, Copy, Debug, PartialEq, Eq, Structural)]
pub struct CounterDelta {
    pub add: i128,
}

impl View for CounterDelta {
    type V = CounterDelta;

    open spec fn view(&self) -> CounterDelta {
        *self
    }
}

/// Canonical state encoding: a tag byte telling whether a dependency
/// follows, the count in little-endian, then the dependency identifier.
pub open spec fn state_bytes(s: CounterStateV) -> Seq<u8> {
    match s.dep {
        None => seq![0u8] + le64_bytes(s.count),
        Some(id) => seq![1u8] + le64_bytes(s.count) + id,
    }
}

/// State decoding: accepts exactly the canonical encodings.
pub open spec fn state_of_bytes(b: Seq<u8>) -> Option<CounterStateV> {
    if b.len() == 9 && b[0] == 0u8 {
        Some(CounterStateV { count: le64_val(b.subrange(1, 9)), dep: None })
    } else if b.len() >= 9 && b[0] == 1u8 {
        Some(
            CounterStateV {
                count: le64_val(b.subrange(1, 9)),
                dep: Some(b.subrange(9, b.len() as int)),
            },
        )
    } else {
        None
    }
}

/// Parameters decoding: a tag byte telling whether a maximum follows.
pub open spec fn params_of_bytes(b: Seq<u8>) -> Option<CounterParams> {
    if b.len() == 1 && b[0] == 0u8 {
        Some(CounterParams { max_count: None })
    } else if b.len() == 9 && b[0] == 1u8 {
        Some(CounterParams { max_count: Some(le64_val(b.subrange(1, 9))) })
    } else {
        None
    }
}

/// Canonical summary encoding: the count in little-endian.
pub open spec fn summary_bytes(su: CounterSummary) -> Seq<u8> {
    le64_bytes(su.count)
}

/// Summary decoding.
pub open spec fn summary_of_bytes(b: Seq<u8>) -> Option<CounterSummary> {
    if b.len() == 8 {
        Some(CounterSummary { count: le64_val(b) })
    } else {
        None
    }
}

/// Canonical delta encoding: a sign byte, then the magnitude in
/// little-endian.
pub open spec fn delta_bytes(d: CounterDelta) -> Seq<u8> {
    if d.add >= 0 {
        seq![0u8] + le64_bytes(d.add as u64)
    } else {
        seq![1u8] + le64_bytes((-d.add) as u64)
    }
}

/// Delta decoding.
pub open spec fn delta_of_bytes(b: Seq<u8>) -> Option<CounterDelta> {
    if b.len() == 9 && b[0] == 0u8 {
        Some(CounterDelta { add: le64_val(b.subrange(1, 9)) as i128 })
    } else if b.len() == 9 && b[0] == 1u8 {
        Some(CounterDelta { add: (-(le64_val(b.subrange(1, 9)) as int)) as i128 })
    } else {
        None
    }
}

/// A delta magnitude that fits the wire encoding.
pub open spec fn delta_in_range(d: CounterDelta) -> bool {
    -(u64::MAX as i128) <= d.add <= u64::MAX as i128
}

/// The dependency identifiers the counter's verification consults.
pub open spec fn counter_deps(s: CounterStateV) -> Seq<Seq<u8>> {
    match s.dep {
        None => Seq::empty(),
        Some(id) => seq![id],
    }
}

/// When the counter's verification succeeds: the count respects the
/// configured maximum, and a resolved dependency's state is well formed.
/// An unresolved dependency does not fail verification here; the adapter
/// reports it as a dependency request instead.
pub open spec fn counter_verify_ok(s: CounterStateV, reg: Seq<EntryV>, p: CounterParams) -> bool {
    let count_ok = match p.max_count {
        Some(m) => s.count <= m,
        None => true,
    };
    let dep_ok = match s.dep {
        None => true,
        Some(id) => match lookup_state(reg, id) {
            Some(Some(bb)) => state_of_bytes(bb) is Some,
            _ => true,
        },
    };
    count_ok && dep_ok
}

/// The counter's summary value.
pub open spec fn counter_summary(s: CounterStateV) -> CounterSummary {
    CounterSummary { count: s.count }
}

/// The counter's delta against a peer summary: whatever must be added to
/// the peer's count to reach this one.
pub open spec fn counter_delta(s: CounterStateV, su: CounterSummary) -> CounterDelta {
    CounterDelta { add: (s.count - su.count) as i128 }
}

/// The counter after a delta: the count moves by the delta's amount; the
/// delta is inapplicable when that leaves the count's range.
pub open spec fn counter_apply(s: CounterStateV, d: CounterDelta) -> Option<CounterStateV> {
    let n = s.count + d.add;
    if 0 <= n <= u64::MAX {
        Some(CounterStateV { count: n as u64, dep: s.dep })
    } else {
        None
    }
}

impl ComposableState for CounterState {
    type Params = CounterParams;

    type Summary = CounterSummary;

    type Delta = CounterDelta;

    open spec fn state_wf(s: CounterStateV) -> bool {
        true
    }

    open spec fn params_wf(p: CounterParams) -> bool {
        true
    }

    open spec fn summary_wf(su: CounterSummary) -> bool {
        true
    }

    open spec fn delta_wf(d: CounterDelta) -> bool {
        delta_in_range(d)
    }

    open spec fn decode_state_spec(b: Seq<u8>) -> Option<CounterStateV> {
        state_of_bytes(b)
    }

    open spec fn encode_state_spec(s: CounterStateV) -> Seq<u8> {
        state_bytes(s)
    }

    open spec fn decode_params_spec(b: Seq<u8>) -> Option<CounterParams> {
        params_of_bytes(b)
    }

    open spec fn decode_summary_spec(b: Seq<u8>) -> Option<CounterSummary> {
        summary_of_bytes(b)
    }

    open spec fn encode_summary_spec(su: CounterSummary) -> Seq<u8> {
        summary_bytes(su)
    }

    open spec fn decode_delta_spec(b: Seq<u8>) -> Option<CounterDelta> {
        delta_of_bytes(b)
    }

    open spec fn encode_delta_spec(d: CounterDelta) -> Seq<u8> {
        delta_bytes(d)
    }

    open spec fn deps_spec(s: CounterStateV, p: CounterParams) -> Seq<Seq<u8>> {
        counter_deps(s)
    }

    open spec fn verify_ok_spec(s: CounterStateV, reg: Seq<EntryV>, p: CounterParams) -> bool {
        counter_verify_ok(s, reg, p)
    }

    open spec fn summarize_spec(s: CounterStateV, p: CounterParams) -> CounterSummary {
        counter_summary(s)
    }

    open spec fn delta_spec(s: CounterStateV, p: CounterParams, su: CounterSummary) -> CounterDelta {
        counter_delta(s, su)
    }

    open spec fn apply_delta_spec(
        s: CounterStateV,
        p: CounterParams,
        d: CounterDelta,
    ) -> Option<CounterStateV> {
        counter_apply(s, d)
    }

    fn decode_state(b: &Vec<u8>) -> (r: Option<Self>) {
        if b.len() < 9 {
            return None;
        }
        let tag = b[0];
        if tag == 0 {
            if b.len() != 9 {
                return None;
            }
            let c = le64_read(b, 1);
            Some(CounterState { count: c, dep: None })
        } else if tag == 1 {
            let c = le64_read(b, 1);
            let id = bytes_suffix(b, 9);
            Some(CounterState { count: c, dep: Some(id) })
        } else {
            None
        }
    }

    fn encode_state(&self) -> (r: Vec<u8>) {
        let mut out: Vec<u8> = Vec::new();
        match &self.dep {
            None => {
                out.push(0u8);
                le64_write(self.count, &mut out);
                proof {
                    assert(out@ =~= state_bytes(self@));
                }
            },
            Some(id) => {
                out.push(1u8);
                le64_write(self.count, &mut out);
                bytes_append(&mut out, id);
                proof {
                    assert(out@ =~= state_bytes(self@));
                }
            },
        }
        out
    }

    fn decode_params(b: &Vec<u8>) -> (r: Option<CounterParams>) {
        if b.len() == 1 && b[0] == 0 {
            Some(CounterParams { max_count: None })
        } else if b.len() == 9 && b[0] == 1 {
            let m = le64_read(b, 1);
            Some(CounterParams { max_count: Some(m) })
        } else {
            None
        }
    }

    fn decode_summary(b: &Vec<u8>) -> (r: Option<CounterSummary>) {
        if b.len() == 8 {
            let c = le64_read(b, 0);
            proof {
                assert(b@.subrange(0, 8) =~= b@);
            }
            Some(CounterSummary { count: c })
        } else {
            None
        }
    }

    fn encode_summary(su: &CounterSummary) -> (r: Vec<u8>) {
        let mut out: Vec<u8> = Vec::new();
        le64_write(su.count, &mut out);
        proof {
            assert(out@ =~= summary_bytes(su@));
        }
        out
    }

    fn decode_delta(b: &Vec<u8>) -> (r: Option<CounterDelta>) {
        if b.len() != 9 {
            return None;
        }
        if b[0] == 0 {
            let m = le64_read(b, 1);
            Some(CounterDelta { add: m as i128 })
        } else if b[0] == 1 {
            let m = le64_read(b, 1);
            Some(CounterDelta { add: -(m as i128) })
        } else {
            None
        }
    }

    fn encode_delta(d: &CounterDelta) -> (r: Vec<u8>) {
        let mut out: Vec<u8> = Vec::new();
        if d.add >= 0 {
            out.push(0u8);
            le64_write(d.add as u64, &mut out);
        } else {
            out.push(1u8);
            le64_write((-d.add) as u64, &mut out);
        }
        proof {
            assert(out@ =~= delta_bytes(d@));
        }
        out
    }

    fn verify(&self, related: &mut RelatedContracts, params: &CounterParams) -> (r: Result<
        (),
        DomainError,
    >) {
        match &self.dep {
            Some(id) => {
                related.mark_needed(id);
                proof {
                    lemma_mark_all_singleton(old(related)@, id@);
                }
            },
            None => {
                proof {
                    assert(mark_all(related@, Seq::<Seq<u8>>::empty()) == related@);
                }
            },
        }
        let count_ok = match params.max_count {
            Some(m) => self.count <= m,
            None => true,
        };
        if !count_ok {
            return Err(DomainError { code: COUNT_EXCEEDS_MAX });
        }
        match &self.dep {
            Some(id) => {
                match related.get_state(id) {
                    Some(Some(bb)) => {
                        match CounterState::decode_state(&bb) {
                            Some(_) => Ok(()),
                            None => Err(DomainError { code: DEP_STATE_MALFORMED }),
                        }
                    },
                    _ => Ok(()),
                }
            },
            None => Ok(()),
        }
    }

    fn summarize(&self, params: &CounterParams) -> (r: CounterSummary) {
        CounterSummary { count: self.count }
    }

    fn delta(&self, params: &CounterParams, summary: &CounterSummary) -> (r: CounterDelta) {
        CounterDelta { add: (self.count as i128) - (summary.count as i128) }
    }

    fn apply_delta(&mut self, params: &CounterParams, d: &CounterDelta) -> (r: Result<
        (),
        DomainError,
    >) {
        let n: i128 = (self.count as i128) + d.add;
        if n < 0 || n > (u64::MAX as i128) {
            return Err(DomainError { code: DELTA_OUT_OF_RANGE });
        }
        self.count = n as u64;
        Ok(())
    }
}

/// Summary idempotence: the delta of a state against its own summary,
/// folded into any state that carries the same summary, leaves a state that
/// still summarizes to that same summary — no residual difference.
pub proof fn lemma_summary_idempotence(s: CounterStateV, t: CounterStateV, p: CounterParams)
    requires
        counter_summary(t) == counter_summary(s),
    ensures
        counter_apply(t, counter_delta(s, counter_summary(s))) matches Some(t2)
            && counter_summary(t2) == counter_summary(s),
{
}

/// Delta convergence: the delta a producer computes against any peer
/// summary, folded into a peer whose state carries that summary, always
/// applies, and brings the peer's summary up to the producer's.
pub proof fn lemma_delta_converges(s: CounterStateV, t: CounterStateV, p: CounterParams)
    ensures
        counter_apply(t, counter_delta(s, counter_summary(t))) matches Some(t2)
            && counter_summary(t2) == counter_summary(s),
{
}

/// Decoding a canonically encoded state yields the state back.
pub proof fn lemma_state_codec_round_trip(s: CounterStateV)
    ensures
        state_of_bytes(state_bytes(s)) == Some(s),
{
    lemma_le64_round_trip(s.count);
    match s.dep {
        None => {
            let b = seq![0u8] + le64_bytes(s.count);
            assert(b.subrange(1, 9) =~= le64_bytes(s.count));
        },
        Some(id) => {
            let b = seq![1u8] + le64_bytes(s.count) + id;
            assert(b.subrange(1, 9) =~= le64_bytes(s.count));
            assert(b.subrange(9, b.len() as int) =~= id);
        },
    }
}

/// Decoding a canonically encoded summary yields the summary back.
pub proof fn lemma_summary_codec_round_trip(su: CounterSummary)
    ensures
        summary_of_bytes(summary_bytes(su)) == Some(su),
{
    lemma_le64_round_trip(su.count);
}

/// Decoding a canonically encoded delta yields the delta back.
pub proof fn lemma_delta_codec_round_trip(d: CounterDelta)
    requires
        delta_in_range(d),
    ensures
        delta_of_bytes(delta_bytes(d)) == Some(d),
{
    if d.add >= 0 {
        let m = d.add as u64;
        lemma_le64_round_trip(m);
        let b = seq![0u8] + le64_bytes(m);
        assert(b.subrange(1, 9) =~= le64_bytes(m));
    } else {
        let m = (-d.add) as u64;
        lemma_le64_round_trip(m);
        let b = seq![1u8] + le64_bytes(m);
        assert(b.subrange(1, 9) =~= le64_bytes(m));
    }
}


/// Wire-level convergence: over encoded payloads, the delta a producer
/// computes for a peer's summary, folded into that peer's state by an
/// update call, succeeds and leaves the peer summarizing exactly as the
/// producer does.
pub proof fn lemma_wire_convergence(s: CounterStateV, t: CounterStateV)
    ensures
        ({
            let params = seq![0u8];
            get_state_delta_spec::<CounterState>(
                params,
                state_bytes(s),
                summary_bytes(counter_summary(t)),
            ) matches Ok(db) && (update_state_spec::<CounterState>(
                params,
                state_bytes(t),
                seq![UpdateDataV::Delta(db)],
            ) matches UpdateSpec::Done(m) && m.new_summary == summary_bytes(counter_summary(s)))
        }),
{
    let params = seq![0u8];
    assert(params.len() == 1 && params[0] == 0u8);
    assert(params_of_bytes(params) == Some(CounterParams { max_count: None }));
    lemma_state_codec_round_trip(s);
    lemma_state_codec_round_trip(t);
    lemma_summary_codec_round_trip(counter_summary(t));
    let d = counter_delta(s, counter_summary(t));
    let db = delta_bytes(d);
    lemma_delta_codec_round_trip(d);
    assert(get_state_delta_spec::<CounterState>(
        params,
        state_bytes(s),
        summary_bytes(counter_summary(t)),
    ) == Ok::<Seq<u8>, crate::error::PayloadField>(db));
    let ups = seq![UpdateDataV::Delta(db)];
    lemma_delta_converges(s, t, CounterParams { max_count: None });
    let t2 = counter_apply(t, d).unwrap();
    assert(fold_updates::<CounterState>(t2, CounterParams { max_count: None }, ups, 1)
        == FoldRes::<CounterStateV>::Done(t2));
    assert(fold_updates::<CounterState>(t, CounterParams { max_count: None }, ups, 0)
        == FoldRes::<CounterStateV>::Done(t2));
    assert(counter_summary(t2) == counter_summary(s));
}

} // verus!
