use retina::udp::{
    even_port, exhausted_text, next_with, next_without, try_pair, BindOutcome, PairSearch, PairState,
    ALLOWED_RTP_RANGE_END, ALLOWED_RTP_RANGE_START, MAX_TRIES,
};

#[test]
fn even_port_clears_the_last_bit() {
    assert_eq!(even_port(5_000), 5_000);
    assert_eq!(even_port(5_001), 5_000);
    assert_eq!(even_port(64_999), 64_998);
    assert_eq!(even_port(0), 0);
    assert_eq!(even_port(65_535), 65_534);
}

#[test]
fn search_starts_with_an_even_rtp_port_in_range() {
    for _ in 0..200 {
        let search = PairSearch::start();
        match search.state() {
            PairState::BindRtp { failed, rtp_port } => {
                assert_eq!(failed, 0);
                assert_eq!(rtp_port % 2, 0);
                assert!(ALLOWED_RTP_RANGE_START <= rtp_port && rtp_port < ALLOWED_RTP_RANGE_END);
                assert_eq!(search.state().port_to_bind(), Some(rtp_port));
            }
            other => panic!("unexpected state {:?}", other),
        }
    }
}

#[test]
fn rtcp_port_follows_the_rtp_port() {
    let mut search = PairSearch::start();
    let rtp_port = search.state().port_to_bind().unwrap();
    search.next(BindOutcome::Bound);
    assert_eq!(search.state(), PairState::BindRtcp { failed: 0, rtp_port });
    assert_eq!(search.state().port_to_bind(), Some(rtp_port + 1));
    search.next(BindOutcome::Bound);
    assert_eq!(search.state(), PairState::Done { rtp_port });
    assert_eq!(search.state().port_to_bind(), None);
    search.next(BindOutcome::AddrInUse);
    assert_eq!(search.state(), PairState::Done { rtp_port });
}

#[test]
fn port_in_use_gives_the_pair_up() {
    let state = try_pair(0, 6_001);
    assert_eq!(state, PairState::BindRtp { failed: 0, rtp_port: 6_000 });
    let state = next_with(state, BindOutcome::AddrInUse, 7_777);
    assert_eq!(state, PairState::BindRtp { failed: 1, rtp_port: 7_776 });
    let state = next_with(state, BindOutcome::Bound, 9_999);
    assert_eq!(state, PairState::BindRtcp { failed: 1, rtp_port: 7_776 });
    let state = next_with(state, BindOutcome::AddrInUse, 8_000);
    assert_eq!(state, PairState::BindRtp { failed: 2, rtp_port: 8_000 });
}

#[test]
fn search_gives_up_after_ten_pairs() {
    assert_eq!(MAX_TRIES, 10);
    let mut search = PairSearch::start();
    for tried in 1..MAX_TRIES {
        search.next(BindOutcome::AddrInUse);
        assert!(
            matches!(search.state(), PairState::BindRtp { failed, .. } if failed == tried),
            "{:?}",
            search.state()
        );
    }
    search.next(BindOutcome::AddrInUse);
    assert_eq!(search.state(), PairState::Exhausted);
    search.next(BindOutcome::Bound);
    assert_eq!(search.state(), PairState::Exhausted);
}

#[test]
fn rtcp_port_in_use_counts_as_a_try() {
    let mut state = try_pair(0, 5_000);
    for _ in 0..MAX_TRIES - 1 {
        state = next_with(state, BindOutcome::Bound, 5_000);
        state = next_with(state, BindOutcome::AddrInUse, 5_000);
    }
    assert_eq!(state, PairState::BindRtp { failed: 9, rtp_port: 5_000 });
    state = next_with(state, BindOutcome::Bound, 5_000);
    state = next_with(state, BindOutcome::AddrInUse, 5_000);
    assert_eq!(state, PairState::Exhausted);
}

#[test]
fn other_failures_end_the_search() {
    let mut search = PairSearch::start();
    search.next(BindOutcome::Failed);
    assert_eq!(search.state(), PairState::Failed);
    let state = next_with(
        PairState::BindRtcp { failed: 3, rtp_port: 5_002 },
        BindOutcome::Failed,
        5_000,
    );
    assert_eq!(state, PairState::Failed);
    assert_eq!(next_with(state, BindOutcome::Bound, 5_000), PairState::Failed);
}

#[test]
fn exhausted_text_names_range_and_tries() {
    assert_eq!(
        exhausted_text("127.0.0.1"),
        "Unable to find even/odd pair in 127.0.0.1:5000..65000 after 10 tries"
    );
}

#[test]
fn a_port_is_drawn_only_for_another_pair() {
    let rtp = PairState::BindRtp { failed: 0, rtp_port: 5_000 };
    let rtcp = PairState::BindRtcp { failed: 8, rtp_port: 5_000 };
    let last = PairState::BindRtcp { failed: 9, rtp_port: 5_000 };
    assert!(rtp.draws(BindOutcome::AddrInUse));
    assert!(rtcp.draws(BindOutcome::AddrInUse));
    assert!(!last.draws(BindOutcome::AddrInUse));
    assert!(!rtp.draws(BindOutcome::Bound));
    assert!(!rtp.draws(BindOutcome::Failed));
    assert!(!PairState::Done { rtp_port: 5_000 }.draws(BindOutcome::AddrInUse));
    assert!(!PairState::Exhausted.draws(BindOutcome::AddrInUse));
    assert!(!PairState::Failed.draws(BindOutcome::AddrInUse));
}

#[test]
fn next_without_a_port_agrees_with_next_with_any() {
    let states = [
        PairState::BindRtp { failed: 0, rtp_port: 5_000 },
        PairState::BindRtp { failed: 9, rtp_port: 6_000 },
        PairState::BindRtcp { failed: 4, rtp_port: 7_000 },
        PairState::BindRtcp { failed: 9, rtp_port: 8_000 },
        PairState::Done { rtp_port: 9_000 },
        PairState::Exhausted,
        PairState::Failed,
    ];
    let outcomes = [BindOutcome::Bound, BindOutcome::AddrInUse, BindOutcome::Failed];
    for state in states {
        for outcome in outcomes {
            if state.draws(outcome) {
                continue;
            }
            let next = next_without(state, outcome);
            assert_eq!(next, next_with(state, outcome, 5_000));
            assert_eq!(next, next_with(state, outcome, 64_999));
        }
    }
    assert_eq!(
        next_without(PairState::BindRtp { failed: 9, rtp_port: 6_000 }, BindOutcome::AddrInUse),
        PairState::Exhausted
    );
    assert_eq!(
        next_without(PairState::BindRtcp { failed: 4, rtp_port: 7_000 }, BindOutcome::Bound),
        PairState::Done { rtp_port: 7_000 }
    );
}
