use std::cell::Cell;

use sitecheck::outcome::{ProbeResult, WebsiteStatus};
use sitecheck::pool::{Claim, Phase, PoolRun};
use sitecheck::retry::check_with_retries;

fn names(n: usize) -> Vec<String> {
    (0..n).map(|i| format!("t{}.example", i)).collect()
}

fn ok(url: &str) -> WebsiteStatus {
    WebsiteStatus::from_probe(url, ProbeResult::Responded { status: 200, elapsed_ms: 10 }, 1)
}

/// Drives a run to its end with one thread of control: at each step a
/// worker picked by a fixed pseudo-random sequence acts, claiming if it is
/// idle and publishing if it holds a target.
fn drive(run: &mut PoolRun, seed: u64) {
    let workers = run.workers();
    let mut held: Vec<Option<String>> = vec![None; workers];
    let mut stopped = vec![false; workers];
    let mut state = seed;
    let mut steps = 0usize;
    while !run.is_complete() {
        state = state.wrapping_mul(6364136223846793005).wrapping_add(1442695040888963407);
        let w = ((state >> 33) as usize) % workers;
        steps += 1;
        assert!(steps < 100_000);
        if stopped[w] {
            continue;
        }
        match held[w].take() {
            Some(target) => assert_eq!(run.publish(w, ok(&target)), None),
            None => match run.claim(w) {
                Claim::Target { target } => held[w] = Some(target),
                Claim::Empty => stopped[w] = true,
                Claim::Refused => panic!("an idle worker was refused"),
            },
        }
    }
}

#[test]
fn one_outcome_per_target_for_any_worker_count() {
    for n in 1..6usize {
        for workers in 1..=2 * n {
            for seed in [1u64, 3, 7] {
                let mut run = PoolRun::new(names(n), workers);
                assert_eq!(run.workers(), workers);
                drive(&mut run, seed);
                let outcomes = run.finish().expect("the run is complete");
                assert_eq!(outcomes.len(), n);
                let mut urls: Vec<String> = outcomes.iter().map(|o| o.url.clone()).collect();
                urls.sort();
                let mut expected = names(n);
                expected.sort();
                assert_eq!(urls, expected);
            }
        }
    }
}

#[test]
fn repeated_targets_are_each_reported() {
    let targets = vec!["a".to_string(), "b".to_string(), "a".to_string()];
    let mut run = PoolRun::new(targets, 2);
    drive(&mut run, 1);
    let outcomes = run.finish().unwrap();
    let mut urls: Vec<String> = outcomes.into_iter().map(|o| o.url).collect();
    urls.sort();
    assert_eq!(urls, vec!["a".to_string(), "a".to_string(), "b".to_string()]);
}

#[test]
fn a_pool_has_at_least_one_worker() {
    let run = PoolRun::new(names(2), 0);
    assert_eq!(run.workers(), 1);
    let run = PoolRun::new(names(2), 16);
    assert_eq!(run.workers(), 16);
}

#[test]
fn a_run_passes_through_its_phases_in_order() {
    let mut run = PoolRun::new(names(2), 2);
    assert_eq!(run.phase(), Phase::Seeded);
    assert_eq!(run.pending(), 2);
    assert_eq!(run.published(), 0);

    assert_eq!(run.claim(0), Claim::Target { target: "t1.example".to_string() });
    assert_eq!(run.phase(), Phase::Running);
    assert_eq!(run.pending(), 1);

    assert_eq!(run.claim(1), Claim::Target { target: "t0.example".to_string() });
    assert_eq!(run.phase(), Phase::Draining);
    assert_eq!(run.pending(), 0);

    assert_eq!(run.publish(1, ok("t0.example")), None);
    assert_eq!(run.phase(), Phase::Draining);
    assert_eq!(run.published(), 1);

    assert_eq!(run.claim(1), Claim::Empty);
    assert_eq!(run.phase(), Phase::Draining);
    assert!(!run.is_complete());

    assert_eq!(run.publish(0, ok("t1.example")), None);
    assert_eq!(run.claim(0), Claim::Empty);
    assert_eq!(run.phase(), Phase::Complete);
    assert!(run.is_complete());

    let outcomes = run.finish().unwrap();
    assert_eq!(outcomes, vec![ok("t0.example"), ok("t1.example")]);
}

#[test]
fn claims_out_of_turn_are_refused() {
    let mut run = PoolRun::new(names(3), 2);
    assert_eq!(run.claim(2), Claim::Refused);
    assert_eq!(run.claim(usize::MAX), Claim::Refused);
    assert_eq!(run.phase(), Phase::Seeded);
    assert_eq!(run.claim(0), Claim::Target { target: "t2.example".to_string() });
    assert_eq!(run.claim(0), Claim::Refused);
    assert_eq!(run.pending(), 2);
}

#[test]
fn a_stopped_worker_claims_no_more() {
    let mut run = PoolRun::new(Vec::new(), 2);
    assert_eq!(run.phase(), Phase::Seeded);
    assert_eq!(run.claim(0), Claim::Empty);
    assert_eq!(run.phase(), Phase::Draining);
    assert_eq!(run.claim(0), Claim::Refused);
    assert_eq!(run.claim(1), Claim::Empty);
    assert_eq!(run.phase(), Phase::Complete);
    assert_eq!(run.claim(1), Claim::Refused);
    assert_eq!(run.finish(), Ok(Vec::new()));
}

#[test]
fn outcomes_that_match_no_claim_are_handed_back() {
    let mut run = PoolRun::new(names(2), 2);
    assert_eq!(run.publish(0, ok("t1.example")), Some(ok("t1.example")));
    assert_eq!(run.claim(0), Claim::Target { target: "t1.example".to_string() });
    assert_eq!(run.publish(0, ok("t0.example")), Some(ok("t0.example")));
    assert_eq!(run.publish(1, ok("t1.example")), Some(ok("t1.example")));
    assert_eq!(run.publish(5, ok("t1.example")), Some(ok("t1.example")));
    assert_eq!(run.published(), 0);
    assert_eq!(run.publish(0, ok("t1.example")), None);
    assert_eq!(run.publish(0, ok("t1.example")), Some(ok("t1.example")));
    assert_eq!(run.published(), 1);
}

#[test]
fn an_unfinished_run_yields_what_was_published() {
    let run = PoolRun::new(names(1), 1);
    assert_eq!(run.finish(), Err(Vec::new()));
    let mut run = PoolRun::new(names(2), 1);
    assert_eq!(run.claim(0), Claim::Target { target: "t1.example".to_string() });
    assert_eq!(run.publish(0, ok("t1.example")), None);
    assert_eq!(run.claim(0), Claim::Target { target: "t0.example".to_string() });
    assert_eq!(run.finish(), Err(vec![ok("t1.example")]));
}

/// What the simulated network answers for a target.
fn simulated(url: &str, timeout_ms: u128) -> WebsiteStatus {
    let probe = match url {
        "ok.example" => ProbeResult::Responded { status: 200, elapsed_ms: 10 },
        "slow.example" => {
            ProbeResult::Failed { message: "timed out".to_string(), elapsed_ms: timeout_ms }
        }
        "down.example" => ProbeResult::Responded { status: 503, elapsed_ms: 15 },
        _ => panic!("no such target"),
    };
    WebsiteStatus::from_probe(url, probe, 1_700_000_000)
}

#[test]
fn scenario_ok_slow_down() {
    let targets =
        vec!["ok.example".to_string(), "slow.example".to_string(), "down.example".to_string()];
    let workers = 2;
    let timeout_ms = 200;
    let max_retries = 1;

    let mut run = PoolRun::new(targets, workers);
    let mut attempts_of: Vec<(String, u64, u32)> = Vec::new();
    let mut stopped = vec![false; workers];
    let mut w = 0;
    while !run.is_complete() {
        if !stopped[w] {
            match run.claim(w) {
                Claim::Target { target } => {
                    let pauses = Cell::new(0u32);
                    let (outcome, attempts) = check_with_retries(
                        max_retries,
                        |_attempt: u32| simulated(&target, timeout_ms),
                        |ms: u64| {
                            assert_eq!(ms, 300);
                            pauses.set(pauses.get() + 1)
                        },
                    );
                    attempts_of.push((target, attempts, pauses.get()));
                    assert_eq!(run.publish(w, outcome), None);
                }
                Claim::Empty => stopped[w] = true,
                Claim::Refused => panic!("an idle worker was refused"),
            }
        }
        w = (w + 1) % workers;
    }
    let mut outcomes = run.finish().unwrap();
    assert_eq!(outcomes.len(), 3);
    outcomes.sort_by(|a, b| a.url.cmp(&b.url));
    attempts_of.sort();

    assert_eq!(outcomes[0].url, "down.example");
    assert_eq!(outcomes[0].status_code, 503);
    assert_eq!(outcomes[0].error, None);
    assert_eq!(attempts_of[0], ("down.example".to_string(), 2, 1));

    assert_eq!(outcomes[1].url, "ok.example");
    assert_eq!(outcomes[1].status_code, 200);
    assert_eq!(outcomes[1].response_time_ms, 10);
    assert_eq!(attempts_of[1], ("ok.example".to_string(), 1, 0));

    assert_eq!(outcomes[2].url, "slow.example");
    assert_eq!(outcomes[2].status_code, -1);
    assert_eq!(outcomes[2].error, Some("timed out".to_string()));
    assert_eq!(outcomes[2].response_time_ms, 200);
    assert_eq!(attempts_of[2], ("slow.example".to_string(), 2, 1));
}
