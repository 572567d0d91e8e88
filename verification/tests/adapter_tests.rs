use composable_contract::adapter::Contract;
use composable_contract::adapter::UpdateData;
use composable_contract::adapter::ValidateResult;
use composable_contract::composable::ComposableState;
use composable_contract::counter::CounterState;
use composable_contract::counter::COUNT_EXCEEDS_MAX;
use composable_contract::counter::DELTA_OUT_OF_RANGE;
use composable_contract::error::ContractError;
use composable_contract::error::PayloadField;
use composable_contract::registry::RelatedContracts;

type C = Contract<CounterState>;

/// State payload: tag byte (1 = dependency follows), count little-endian,
/// then the dependency identifier.
fn enc_state(count: u64, dep: Option<&[u8]>) -> Vec<u8> {
    let mut v = Vec::new();
    match dep {
        None => {
            v.push(0u8);
            v.extend_from_slice(&count.to_le_bytes());
        }
        Some(id) => {
            v.push(1u8);
            v.extend_from_slice(&count.to_le_bytes());
            v.extend_from_slice(id);
        }
    }
    v
}

/// Parameters payload: tag byte (1 = maximum follows), maximum little-endian.
fn enc_params(max: Option<u64>) -> Vec<u8> {
    match max {
        None => vec![0u8],
        Some(m) => {
            let mut v = vec![1u8];
            v.extend_from_slice(&m.to_le_bytes());
            v
        }
    }
}

/// Summary payload: the count little-endian.
fn enc_summary(count: u64) -> Vec<u8> {
    count.to_le_bytes().to_vec()
}

/// Delta payload: sign byte, magnitude little-endian.
fn enc_delta(add: i128) -> Vec<u8> {
    let mut v = Vec::new();
    if add >= 0 {
        v.push(0u8);
        v.extend_from_slice(&(add as u64).to_le_bytes());
    } else {
        v.push(1u8);
        v.extend_from_slice(&((-add) as u64).to_le_bytes());
    }
    v
}

#[test]
fn valid_with_no_dependencies() {
    let r = C::validate_state(enc_params(None), enc_state(1, None), RelatedContracts::new());
    assert!(matches!(r, Ok(ValidateResult::Valid)));
}

#[test]
fn missing_dependency_is_requested() {
    let mut related = RelatedContracts::new();
    related.insert_supplied(b"X".to_vec(), None);
    let r = C::validate_state(enc_params(None), enc_state(0, Some(b"X")), related);
    match r {
        Ok(ValidateResult::RequestRelated(ids)) => {
            assert_eq!(ids, vec![b"X".to_vec()]);
        }
        _ => panic!("expected a request for the missing dependency"),
    }
}

#[test]
fn absent_dependency_is_requested() {
    let r = C::validate_state(
        enc_params(None),
        enc_state(0, Some(b"X")),
        RelatedContracts::new(),
    );
    match r {
        Ok(ValidateResult::RequestRelated(ids)) => {
            assert_eq!(ids, vec![b"X".to_vec()]);
        }
        _ => panic!("expected a request for the absent dependency"),
    }
}

#[test]
fn unqueried_supplied_entry_is_not_requested() {
    let mut related = RelatedContracts::new();
    related.insert_supplied(b"Y".to_vec(), None);
    let r = C::validate_state(enc_params(None), enc_state(1, None), related);
    assert!(matches!(r, Ok(ValidateResult::Valid)));
}

#[test]
fn resolved_dependency_validates() {
    let mut related = RelatedContracts::new();
    related.insert_supplied(b"X".to_vec(), Some(enc_state(4, None)));
    let r = C::validate_state(enc_params(None), enc_state(0, Some(b"X")), related);
    assert!(matches!(r, Ok(ValidateResult::Valid)));
}

#[test]
fn malformed_resolved_dependency_is_invalid() {
    let mut related = RelatedContracts::new();
    related.insert_supplied(b"X".to_vec(), Some(vec![9u8, 9, 9]));
    let r = C::validate_state(enc_params(None), enc_state(0, Some(b"X")), related);
    assert!(matches!(r, Ok(ValidateResult::Invalid)));
}

#[test]
fn count_over_maximum_is_invalid() {
    let r = C::validate_state(enc_params(Some(3)), enc_state(5, None), RelatedContracts::new());
    assert!(matches!(r, Ok(ValidateResult::Invalid)));
}

#[test]
fn unresolved_dependency_masks_invalid_verdict() {
    let r = C::validate_state(
        enc_params(Some(3)),
        enc_state(5, Some(b"X")),
        RelatedContracts::new(),
    );
    match r {
        Ok(ValidateResult::RequestRelated(ids)) => {
            assert_eq!(ids, vec![b"X".to_vec()]);
        }
        _ => panic!("dependency resolution takes precedence over the verdict"),
    }
}

#[test]
fn validate_names_malformed_state() {
    let r = C::validate_state(enc_params(None), vec![7u8, 7], RelatedContracts::new());
    assert_eq!(r, Err(ContractError::Decode(PayloadField::CurrentState)));
}

#[test]
fn validate_names_malformed_parameters() {
    let r = C::validate_state(vec![9u8, 9], enc_state(1, None), RelatedContracts::new());
    assert_eq!(r, Err(ContractError::Decode(PayloadField::Parameters)));
}

#[test]
fn summarize_state_encodes_the_count() {
    let r = C::summarize_state(enc_params(None), enc_state(7, None));
    assert_eq!(r, Ok(enc_summary(7)));
}

#[test]
fn summarize_names_malformed_state() {
    let r = C::summarize_state(enc_params(None), Vec::new());
    assert_eq!(r, Err(ContractError::Decode(PayloadField::CurrentState)));
}

#[test]
fn summarize_names_malformed_parameters() {
    let r = C::summarize_state(vec![2u8], enc_state(7, None));
    assert_eq!(r, Err(ContractError::Decode(PayloadField::Parameters)));
}

#[test]
fn delta_round_trip_converges() {
    // A producer at count 5 serves a peer whose summary says count 3.
    let d = C::get_state_delta(enc_params(None), enc_state(5, None), enc_summary(3));
    assert_eq!(d, Ok(enc_delta(2)));

    // The peer folds the delta in and reaches the producer's state.
    let m = C::update_state(
        enc_params(None),
        enc_state(3, None),
        vec![UpdateData::Delta(enc_delta(2))],
    )
    .unwrap();
    assert_eq!(m.new_state, enc_state(5, None));
    assert_eq!(m.new_summary, enc_summary(5));

    // No residual difference: the producer's delta against the converged
    // summary is zero.
    let d2 = C::get_state_delta(enc_params(None), enc_state(5, None), enc_summary(5));
    assert_eq!(d2, Ok(enc_delta(0)));
}

#[test]
fn summary_idempotence_for_equal_summaries() {
    // Two states with the same summary; the delta of one against its own
    // summary leaves the other's summary unchanged.
    let d = C::get_state_delta(enc_params(None), enc_state(5, Some(b"X")), enc_summary(5));
    assert_eq!(d, Ok(enc_delta(0)));
    let m = C::update_state(
        enc_params(None),
        enc_state(5, None),
        vec![UpdateData::Delta(enc_delta(0))],
    )
    .unwrap();
    assert_eq!(m.new_summary, enc_summary(5));
}

#[test]
fn get_state_delta_names_malformed_summary() {
    let r = C::get_state_delta(enc_params(None), enc_state(5, None), vec![1u8, 2, 3]);
    assert_eq!(r, Err(ContractError::Decode(PayloadField::Summary)));
}

#[test]
fn get_state_delta_names_malformed_state() {
    let r = C::get_state_delta(enc_params(None), vec![0u8], enc_summary(3));
    assert_eq!(r, Err(ContractError::Decode(PayloadField::CurrentState)));
}

#[test]
fn update_with_empty_batch_returns_the_state() {
    let m = C::update_state(enc_params(None), enc_state(8, None), Vec::new()).unwrap();
    assert_eq!(m.new_state, enc_state(8, None));
    assert_eq!(m.new_summary, enc_summary(8));
}

#[test]
fn update_folds_a_mixed_batch_left_to_right() {
    let m = C::update_state(
        enc_params(None),
        enc_state(1, None),
        vec![
            UpdateData::Delta(enc_delta(2)),
            UpdateData::State(enc_state(10, None)),
            UpdateData::Delta(enc_delta(-4)),
        ],
    )
    .unwrap();
    assert_eq!(m.new_state, enc_state(6, None));
    assert_eq!(m.new_summary, enc_summary(6));
}

#[test]
fn update_replacement_is_verified_before_acceptance() {
    let r = C::update_state(
        enc_params(Some(3)),
        enc_state(1, None),
        vec![UpdateData::State(enc_state(9, None))],
    );
    match r {
        Err(ContractError::Domain { index, source }) => {
            assert_eq!(index, 1);
            assert_eq!(source.code, COUNT_EXCEEDS_MAX);
        }
        _ => panic!("an over-maximum replacement must be rejected"),
    }
}

#[test]
fn update_batch_fails_atomically_at_the_failing_entry() {
    // Entry 2 underflows the count; the error names entry 2 and no state
    // comes back, so the caller's stored state is untouched.
    let r = C::update_state(
        enc_params(None),
        enc_state(5, None),
        vec![
            UpdateData::Delta(enc_delta(1)),
            UpdateData::Delta(enc_delta(-100)),
            UpdateData::Delta(enc_delta(3)),
        ],
    );
    match r {
        Err(ContractError::Domain { index, source }) => {
            assert_eq!(index, 2);
            assert_eq!(source.code, DELTA_OUT_OF_RANGE);
        }
        _ => panic!("the batch must fail at its second entry"),
    }
}

#[test]
fn update_names_the_malformed_entry() {
    let r = C::update_state(
        enc_params(None),
        enc_state(5, None),
        vec![
            UpdateData::Delta(enc_delta(1)),
            UpdateData::Delta(vec![8u8, 8]),
        ],
    );
    assert_eq!(r, Err(ContractError::Decode(PayloadField::UpdateEntry(2))));
}

#[test]
fn update_names_malformed_current_state() {
    let r = C::update_state(enc_params(None), vec![3u8], Vec::new());
    assert_eq!(r, Err(ContractError::Decode(PayloadField::CurrentState)));
}

#[test]
fn update_names_malformed_parameters() {
    let r = C::update_state(Vec::new(), enc_state(5, None), Vec::new());
    assert_eq!(r, Err(ContractError::Decode(PayloadField::Parameters)));
}

#[test]
fn folding_two_deltas_equals_folding_their_sum() {
    let both = C::update_state(
        enc_params(None),
        enc_state(10, None),
        vec![
            UpdateData::Delta(enc_delta(4)),
            UpdateData::Delta(enc_delta(-1)),
        ],
    )
    .unwrap();
    let combined = C::update_state(
        enc_params(None),
        enc_state(10, None),
        vec![UpdateData::Delta(enc_delta(3))],
    )
    .unwrap();
    assert_eq!(both.new_state, combined.new_state);
    assert_eq!(both.new_summary, combined.new_summary);
}

#[test]
fn update_keeps_the_dependency_of_the_state() {
    let m = C::update_state(
        enc_params(None),
        enc_state(2, Some(b"X")),
        vec![UpdateData::Delta(enc_delta(3))],
    )
    .unwrap();
    assert_eq!(m.new_state, enc_state(5, Some(b"X")));
}

#[test]
fn library_encoder_matches_the_wire_format() {
    let st = CounterState {
        count: 5,
        dep: Some(b"X".to_vec()),
    };
    assert_eq!(st.encode_state(), enc_state(5, Some(b"X")));
}

#[test]
fn error_messages_name_the_payload() {
    let e = ContractError::Decode(PayloadField::Summary);
    assert!(e.message().contains("summary"));
    let d = ContractError::Domain {
        index: 1,
        source: composable_contract::error::DomainError { code: 1 },
    };
    assert!(d.message().contains("rejected"));
}
