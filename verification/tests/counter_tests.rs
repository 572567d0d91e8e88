use composable_contract::composable::ComposableState;
use composable_contract::counter::CounterDelta;
use composable_contract::counter::CounterParams;
use composable_contract::counter::CounterState;
use composable_contract::counter::CounterSummary;
use composable_contract::counter::DELTA_OUT_OF_RANGE;
use composable_contract::registry::RelatedContracts;

#[test]
fn state_codec_round_trips_without_dependency() {
    let st = CounterState { count: 123456789, dep: None };
    let b = st.encode_state();
    let back = CounterState::decode_state(&b).unwrap();
    assert_eq!(back.count, 123456789);
    assert!(back.dep.is_none());
}

#[test]
fn state_codec_round_trips_with_dependency() {
    let st = CounterState { count: 7, dep: Some(vec![1, 2, 3]) };
    let b = st.encode_state();
    let back = CounterState::decode_state(&b).unwrap();
    assert_eq!(back.count, 7);
    assert_eq!(back.dep, Some(vec![1, 2, 3]));
}

#[test]
fn state_decoder_rejects_short_and_tagless_payloads() {
    assert!(CounterState::decode_state(&vec![]).is_none());
    assert!(CounterState::decode_state(&vec![0u8; 8]).is_none());
    assert!(CounterState::decode_state(&vec![2u8; 9]).is_none());
    // A no-dependency state payload must be exactly nine bytes.
    assert!(CounterState::decode_state(&vec![0u8; 10]).is_none());
}

#[test]
fn summary_codec_round_trips() {
    let su = CounterSummary { count: 42 };
    let b = CounterState::encode_summary(&su);
    assert_eq!(b, 42u64.to_le_bytes().to_vec());
    let back = CounterState::decode_summary(&b).unwrap();
    assert_eq!(back.count, 42);
}

#[test]
fn summary_decoder_rejects_wrong_lengths() {
    assert!(CounterState::decode_summary(&vec![0u8; 7]).is_none());
    assert!(CounterState::decode_summary(&vec![0u8; 9]).is_none());
}

#[test]
fn delta_codec_round_trips_both_signs() {
    for add in [0i128, 5, -5, u64::MAX as i128, -(u64::MAX as i128)] {
        let d = CounterDelta { add };
        let b = CounterState::encode_delta(&d);
        let back = CounterState::decode_delta(&b).unwrap();
        assert_eq!(back.add, add);
    }
}

#[test]
fn delta_decoder_rejects_bad_payloads() {
    assert!(CounterState::decode_delta(&vec![0u8; 8]).is_none());
    assert!(CounterState::decode_delta(&vec![3u8; 9]).is_none());
}

#[test]
fn params_decoder_reads_both_forms() {
    let none = CounterState::decode_params(&vec![0u8]).unwrap();
    assert_eq!(none.max_count, None);
    let mut with_max = vec![1u8];
    with_max.extend_from_slice(&9u64.to_le_bytes());
    let some = CounterState::decode_params(&with_max).unwrap();
    assert_eq!(some.max_count, Some(9));
    assert!(CounterState::decode_params(&vec![]).is_none());
    assert!(CounterState::decode_params(&vec![1u8]).is_none());
}

#[test]
fn apply_delta_moves_the_count() {
    let mut st = CounterState { count: 3, dep: None };
    let p = CounterParams { max_count: None };
    st.apply_delta(&p, &CounterDelta { add: 2 }).unwrap();
    assert_eq!(st.count, 5);
    st.apply_delta(&p, &CounterDelta { add: -5 }).unwrap();
    assert_eq!(st.count, 0);
}

#[test]
fn apply_delta_rejects_an_out_of_range_result() {
    let mut st = CounterState { count: u64::MAX, dep: None };
    let p = CounterParams { max_count: None };
    let e = st.apply_delta(&p, &CounterDelta { add: 1 }).unwrap_err();
    assert_eq!(e.code, DELTA_OUT_OF_RANGE);
    assert_eq!(st.count, u64::MAX);

    let mut st2 = CounterState { count: 0, dep: None };
    let e2 = st2.apply_delta(&p, &CounterDelta { add: -1 }).unwrap_err();
    assert_eq!(e2.code, DELTA_OUT_OF_RANGE);
    assert_eq!(st2.count, 0);
}

#[test]
fn summarize_and_delta_are_registry_free() {
    let st = CounterState { count: 9, dep: Some(vec![5]) };
    let p = CounterParams { max_count: None };
    let su = st.summarize(&p);
    assert_eq!(su.count, 9);
    let d = st.delta(&p, &CounterSummary { count: 4 });
    assert_eq!(d.add, 5);
    let d_back = st.delta(&p, &CounterSummary { count: 12 });
    assert_eq!(d_back.add, -3);
}

#[test]
fn registry_marks_and_lists_missing_entries_in_order() {
    let mut reg = RelatedContracts::new();
    reg.insert_supplied(vec![1], None);
    reg.insert_supplied(vec![2], Some(vec![0u8; 9]));
    reg.mark_needed(&vec![1]);
    reg.mark_needed(&vec![2]);
    reg.mark_needed(&vec![3]);
    let missing = reg.missing_ids();
    assert_eq!(missing, vec![vec![1], vec![3]]);
}

#[test]
fn registry_supply_overwrites_and_resolves() {
    let mut reg = RelatedContracts::new();
    reg.mark_needed(&vec![7]);
    assert_eq!(reg.missing_ids(), vec![vec![7]]);
    reg.insert_supplied(vec![7], Some(vec![1, 2]));
    assert!(reg.missing_ids().is_empty());
    assert_eq!(reg.get_state(&vec![7]), Some(Some(vec![1, 2])));
    assert_eq!(reg.get_state(&vec![8]), None);
}

#[test]
fn verify_marks_only_its_dependency() {
    let st = CounterState { count: 0, dep: Some(vec![4]) };
    let p = CounterParams { max_count: None };
    let mut reg = RelatedContracts::new();
    reg.insert_supplied(vec![9], None);
    let r = st.verify(&mut reg, &p);
    assert!(r.is_ok());
    assert_eq!(reg.missing_ids(), vec![vec![4]]);
}
