use bulkdl::dispatch::{collect_outcomes, order_results, ProcessResult};
use bulkdl::jobs::{build_job_specs, DownloadType};

fn ok_result(stdout: &str) -> ProcessResult {
    ProcessResult {
        succeeded: true,
        stdout_text: stdout.to_string(),
        stderr_text: String::new(),
    }
}

fn failed_result(stderr: &str) -> ProcessResult {
    ProcessResult {
        succeeded: false,
        stdout_text: String::new(),
        stderr_text: stderr.to_string(),
    }
}

#[test]
fn one_outcome_per_target_in_submission_order() {
    let jobs = build_job_specs(
        "a.example/1, a.example/2",
        DownloadType::Audio,
        None,
        "/tmp/out",
    )
    .unwrap();
    let results = vec![ok_result("Title One"), ok_result("Title Two")];
    let outcomes = collect_outcomes(&jobs, &results);
    assert_eq!(outcomes.len(), 2);
    assert_eq!(outcomes[0].target, "a.example/1");
    assert_eq!(outcomes[1].target, "a.example/2");
    assert_eq!(outcomes[0].stdout_text, "Title One");
    assert_eq!(outcomes[1].stdout_text, "Title Two");
}

#[test]
fn one_failing_job_leaves_the_sibling_outcome_alone() {
    let jobs = build_job_specs("u1,u2", DownloadType::Audio, None, "/dl").unwrap();
    let results = vec![ok_result("fine"), failed_result("network error")];
    let outcomes = collect_outcomes(&jobs, &results);
    assert_eq!(outcomes.len(), 2);
    assert!(outcomes[0].succeeded);
    assert_eq!(outcomes[0].payload(), "fine");
    assert!(!outcomes[1].succeeded);
    assert_eq!(outcomes[1].payload(), "network error");
    assert_eq!(outcomes[1].target, "u2");
}

#[test]
fn identical_inputs_give_identical_outcome_sequences() {
    let jobs = build_job_specs("u1, u2, u3", DownloadType::Audio, None, "/dl").unwrap();
    let results1 = vec![
        ok_result("first"),
        failed_result("boom"),
        ok_result("third"),
    ];
    let results2 = vec![
        ok_result("first"),
        failed_result("boom"),
        ok_result("third"),
    ];
    let run1 = collect_outcomes(&jobs, &results1);
    let run2 = collect_outcomes(&jobs, &results2);
    assert_eq!(run1.len(), run2.len());
    for (a, b) in run1.iter().zip(run2.iter()) {
        assert_eq!(a.target, b.target);
        assert_eq!(a.succeeded, b.succeeded);
        assert_eq!(a.stdout_text, b.stdout_text);
        assert_eq!(a.stderr_text, b.stderr_text);
    }
}

#[test]
fn all_jobs_failing_still_yields_every_outcome() {
    let jobs = build_job_specs("u1,u2,u3", DownloadType::Audio, None, "/dl").unwrap();
    let results = vec![
        failed_result("e1"),
        failed_result("e2"),
        failed_result("e3"),
    ];
    let outcomes = collect_outcomes(&jobs, &results);
    assert_eq!(outcomes.len(), 3);
    assert_eq!(outcomes[0].payload(), "e1");
    assert_eq!(outcomes[1].payload(), "e2");
    assert_eq!(outcomes[2].payload(), "e3");
}

#[test]
fn completion_order_does_not_influence_the_outcome_order() {
    let jobs = build_job_specs("u1, u2, u3", DownloadType::Audio, None, "/dl").unwrap();
    // The workers finished last-first; the tags carry submission positions.
    let tagged = vec![
        (2, ok_result("third")),
        (0, failed_result("boom")),
        (1, ok_result("second")),
    ];
    let results = order_results(jobs.len(), &tagged).unwrap();
    let outcomes = collect_outcomes(&jobs, &results);
    assert_eq!(outcomes.len(), 3);
    assert_eq!(outcomes[0].target, "u1");
    assert!(!outcomes[0].succeeded);
    assert_eq!(outcomes[0].payload(), "boom");
    assert_eq!(outcomes[1].target, "u2");
    assert_eq!(outcomes[1].payload(), "second");
    assert_eq!(outcomes[2].target, "u3");
    assert_eq!(outcomes[2].payload(), "third");
}

#[test]
fn a_duplicated_submission_tag_is_refused() {
    let tagged = vec![(0, ok_result("a")), (0, ok_result("b"))];
    assert!(order_results(2, &tagged).is_none());
}

#[test]
fn a_tag_past_the_job_count_is_refused() {
    let tagged = vec![(0, ok_result("a")), (2, ok_result("b"))];
    assert!(order_results(2, &tagged).is_none());
}

#[test]
fn a_missing_or_extra_result_is_refused() {
    let tagged = vec![(0, ok_result("a"))];
    assert!(order_results(2, &tagged).is_none());
    let tagged = vec![
        (0, ok_result("a")),
        (1, ok_result("b")),
        (1, ok_result("c")),
    ];
    assert!(order_results(2, &tagged).is_none());
}

#[test]
fn payload_picks_stdout_on_success_and_stderr_on_failure() {
    let jobs = build_job_specs("u", DownloadType::Audio, None, "/dl").unwrap();
    let good = collect_outcomes(&jobs, &vec![ok_result("out text")]);
    assert_eq!(good[0].payload(), "out text");
    let bad = collect_outcomes(&jobs, &vec![failed_result("err text")]);
    assert_eq!(bad[0].payload(), "err text");
}
