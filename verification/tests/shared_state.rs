use trc_rtt_proxy::shared_state::{dec_is_last, incr_is_first, SharedState};

#[test]
fn only_the_first_holder_is_first() {
    let mut state = SharedState::new_rc();
    assert!(state.inc_vector_catch_enabled());
    assert!(!state.inc_vector_catch_enabled());
    assert!(!state.inc_vector_catch_enabled());
    assert_eq!(state.vector_catch_enabled, 3);
    assert_eq!(state.clear_vector_catch_and_breakpoints, 0);
}

#[test]
fn only_the_last_holder_is_last() {
    let mut state = SharedState::new_rc();
    for _ in 0..3 {
        state.inc_clear_vector_catch_and_breakpoints();
    }
    assert!(!state.dec_clear_vector_catch_and_breakpoints());
    assert!(!state.dec_clear_vector_catch_and_breakpoints());
    assert!(state.dec_clear_vector_catch_and_breakpoints());
    assert_eq!(state, SharedState::new_rc());
}

#[test]
fn giving_up_what_was_never_held_counts_as_last() {
    let mut state = SharedState::new_rc();
    assert!(state.dec_vector_catch_enabled());
    assert!(state.dec_clear_vector_catch_and_breakpoints());
    assert_eq!(state, SharedState::new_rc());
}

#[test]
fn reset_forgets_all_holders() {
    let mut state = SharedState::new_rc();
    state.inc_vector_catch_enabled();
    state.inc_clear_vector_catch_and_breakpoints();
    state.inc_clear_vector_catch_and_breakpoints();
    state.reset();
    assert_eq!(
        state,
        SharedState { clear_vector_catch_and_breakpoints: 0, vector_catch_enabled: 0 }
    );
    assert!(state.inc_vector_catch_enabled());
}

#[test]
fn counts_wrap_around_and_stop_at_zero() {
    let mut count: usize = usize::MAX;
    assert!(!incr_is_first(&mut count));
    assert_eq!(count, 0);
    assert!(dec_is_last(&mut count));
    assert_eq!(count, 0);
    assert!(incr_is_first(&mut count));
    assert!(!incr_is_first(&mut count));
    assert_eq!(count, 2);
    assert!(!dec_is_last(&mut count));
    assert!(dec_is_last(&mut count));
    assert_eq!(count, 0);
}
