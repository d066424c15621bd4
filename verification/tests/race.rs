use rs_taps::candidates::Candidate;
use rs_taps::endpoint::{IpAddress, SocketAddress};
use rs_taps::error::TapsError;
use rs_taps::race::{start_delay_ms, Race, RaceStep, ATTEMPT_DELAY_MS};

fn candidates(n: u16) -> Vec<Candidate> {
    (0..n)
        .map(|i| Candidate {
            remote: SocketAddress::new(IpAddress::V4(0x7f00_0001), 1000 + i),
            local: None,
            protocol: "tcp",
        })
        .collect()
}

#[test]
fn attempts_start_250_ms_apart() {
    assert_eq!(ATTEMPT_DELAY_MS, 250);
    assert_eq!(start_delay_ms(0), 0);
    assert_eq!(start_delay_ms(1), 250);
    assert_eq!(start_delay_ms(2), 500);
    assert_eq!(start_delay_ms(7), 1750);
    assert_eq!(start_delay_ms(usize::MAX), (usize::MAX as u128) * 250);
}

#[test]
fn a_new_race_waits_for_every_attempt() {
    let race = Race::new(candidates(3));
    assert_eq!(race.len(), 3);
    assert_eq!(race.winner, None);
    assert_eq!(race.outstanding(), vec![0, 1, 2]);
    assert!(race.is_pending(0) && race.is_pending(1) && race.is_pending(2));
    assert!(!race.is_pending(3));
}

#[test]
fn first_success_wins_and_cancels_the_rest() {
    let mut race = Race::new(candidates(4));
    assert!(matches!(race.on_result(2, false), RaceStep::Wait));
    match race.on_result(1, true) {
        RaceStep::Won { cancel } => assert_eq!(cancel, vec![0, 3]),
        other => panic!("unexpected step {:?}", other),
    }
    assert_eq!(race.winner, Some(1));
    assert!(!race.is_pending(1));
}

#[test]
fn a_later_result_is_discarded() {
    let mut race = Race::new(candidates(3));
    assert!(matches!(race.on_result(0, true), RaceStep::Won { .. }));
    assert!(matches!(race.on_result(2, true), RaceStep::Discard));
    assert!(matches!(race.on_result(1, false), RaceStep::Discard));
    assert_eq!(race.winner, Some(0));
    assert_eq!(race.outstanding(), Vec::<usize>::new());
}

#[test]
fn all_failures_lose_the_race_at_the_last_report() {
    let mut race = Race::new(candidates(3));
    assert!(matches!(race.on_result(1, false), RaceStep::Wait));
    assert!(matches!(race.on_result(0, false), RaceStep::Wait));
    assert!(matches!(race.on_result(2, false), RaceStep::Lost));
    assert_eq!(race.winner, None);
}

#[test]
fn the_last_attempt_can_still_win() {
    let mut race = Race::new(candidates(2));
    assert!(matches!(race.on_result(0, false), RaceStep::Wait));
    match race.on_result(1, true) {
        RaceStep::Won { cancel } => assert_eq!(cancel, Vec::<usize>::new()),
        other => panic!("unexpected step {:?}", other),
    }
}

#[test]
fn any_order_of_reports_finds_a_success() {
    let outcomes = [false, true, false, true];
    let orders: [[usize; 4]; 4] = [[0, 1, 2, 3], [3, 2, 1, 0], [2, 0, 3, 1], [1, 3, 0, 2]];
    for order in orders {
        let mut race = Race::new(candidates(4));
        let mut won = None;
        for k in order {
            match race.on_result(k, outcomes[k]) {
                RaceStep::Won { .. } => {
                    assert!(won.is_none());
                    won = Some(k);
                }
                RaceStep::Lost => panic!("lost although an attempt succeeds"),
                RaceStep::Wait => assert!(won.is_none()),
                RaceStep::Discard => assert!(won.is_some()),
            }
        }
        let first_success = order.iter().copied().find(|k| outcomes[*k]);
        assert_eq!(won, first_success);
        assert_eq!(race.winner, first_success);
    }
}

#[test]
fn a_single_failing_attempt_loses_at_once() {
    let mut race = Race::new(candidates(1));
    assert!(matches!(race.on_result(0, false), RaceStep::Lost));
}

#[test]
fn outcome_follows_the_reports() {
    let mut race = Race::new(candidates(2));
    assert!(race.outcome().is_none());
    race.on_result(1, false);
    assert!(race.outcome().is_none());
    race.on_result(0, true);
    assert!(matches!(race.outcome(), Some(Ok(0))));
    let mut race = Race::new(candidates(2));
    race.on_result(0, false);
    race.on_result(1, false);
    assert!(matches!(race.outcome(), Some(Err(TapsError::NoCandidateSucceeded))));
}

#[test]
fn a_race_without_candidates_is_lost_from_the_start() {
    let race = Race::new(Vec::new());
    assert_eq!(race.len(), 0);
    assert!(matches!(race.outcome(), Some(Err(TapsError::NoCandidateSucceeded))));
}
