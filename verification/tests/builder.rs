use bulkdl::jobs::{build_job_specs, DownloadType, InputError, QualityTier};

#[test]
fn builds_one_spec_per_target_in_order() {
    let jobs = build_job_specs(
        "a.example/1, a.example/2",
        DownloadType::Audio,
        None,
        "/tmp/out",
    )
    .unwrap();
    assert_eq!(jobs.len(), 2);
    assert_eq!(jobs[0].target, "a.example/1");
    assert_eq!(jobs[1].target, "a.example/2");
    assert_eq!(jobs[0].destination, "/tmp/out");
    assert_eq!(jobs[1].destination, "/tmp/out");
    assert!(jobs.iter().all(|j| j.mode == DownloadType::Audio));
    assert!(jobs.iter().all(|j| j.quality.is_none()));
}

#[test]
fn trims_whitespace_and_drops_empty_pieces() {
    let jobs = build_job_specs(
        "  one ,, \t two\n,   ",
        DownloadType::Audio,
        None,
        "/dl",
    )
    .unwrap();
    assert_eq!(jobs.len(), 2);
    assert_eq!(jobs[0].target, "one");
    assert_eq!(jobs[1].target, "two");
}

#[test]
fn empty_target_list_is_an_input_error() {
    let r = build_job_specs("", DownloadType::Audio, None, "/dl");
    assert_eq!(r.unwrap_err(), InputError::NoTargets);
}

#[test]
fn all_whitespace_target_list_is_an_input_error() {
    let r = build_job_specs("   \t  \n ", DownloadType::Audio, None, "/dl");
    assert_eq!(r.unwrap_err(), InputError::NoTargets);
}

#[test]
fn whitespace_and_commas_only_is_an_input_error() {
    let r = build_job_specs("  , ,\t,  ", DownloadType::Audio, None, "/dl");
    assert_eq!(r.unwrap_err(), InputError::NoTargets);
}

#[test]
fn video_without_quality_is_rejected() {
    let r = build_job_specs("a.example/1", DownloadType::Video, None, "/dl");
    assert_eq!(r.unwrap_err(), InputError::QualityMismatch);
}

#[test]
fn audio_with_quality_is_rejected() {
    let r = build_job_specs(
        "a.example/1",
        DownloadType::Audio,
        Some(QualityTier::Height720),
        "/dl",
    );
    assert_eq!(r.unwrap_err(), InputError::QualityMismatch);
}

#[test]
fn quality_mismatch_is_reported_before_missing_targets() {
    let r = build_job_specs("", DownloadType::Video, None, "/dl");
    assert_eq!(r.unwrap_err(), InputError::QualityMismatch);
}

#[test]
fn video_with_quality_carries_the_tier_on_every_job() {
    let jobs = build_job_specs(
        "u1,u2,u3",
        DownloadType::Video,
        Some(QualityTier::Height480),
        "/dl",
    )
    .unwrap();
    assert_eq!(jobs.len(), 3);
    assert!(jobs
        .iter()
        .all(|j| j.quality == Some(QualityTier::Height480)));
}
