use coroutine_runtime::state::State;

#[test]
fn status_codes_are_zero_and_one() {
    assert_eq!(State::Pending.code(), 0);
    assert_eq!(State::Ready.code(), 1);
}

#[test]
fn status_decoding_rejects_other_words() {
    assert_eq!(State::from_code(0), Some(State::Pending));
    assert_eq!(State::from_code(1), Some(State::Ready));
    assert_eq!(State::from_code(2), None);
    assert_eq!(State::from_code(u64::MAX), None);
}
