use sqtop::app::{build_bulk_cancel_candidates, cancel_denial_reason, CancelPreview, CancelScope};
use sqtop::model::types::JobRecord;

fn sample_job(user: &str, active: bool) -> JobRecord {
    JobRecord {
        job_id: "1".to_string(),
        user: user.to_string(),
        account: Some("demo".to_string()),
        partition_raw: "gpu_l48".to_string(),
        partitions: vec!["gpu_l48".to_string()],
        name: "train".to_string(),
        state: if active { "RUNNING" } else { "COMPLETED" }.to_string(),
        runtime_raw: "1:00:00".to_string(),
        time_limit_raw: "2:00:00".to_string(),
        runtime_secs: Some(3600),
        time_limit_secs: Some(7200),
        nodes: 1,
        cpus: Some(8),
        memory_mb: Some(8000),
        requested_gpus: Some(1),
        gres: Some("gres:gpu:1".to_string()),
        req_tres: Some("cpu=8,mem=8000M,gres/gpu=1".to_string()),
        alloc_tres: Some("cpu=8,mem=8000M,gres/gpu=1".to_string()),
        location_or_reason: "c56b01n01".to_string(),
        submit_time: Some("2026-04-12T12:00:00".to_string()),
        priority: Some(1),
        is_mine: user == "myli",
        active,
        running: active,
        pending: false,
    }
}

#[test]
fn forbids_cancel_for_non_owned_job() {
    let job = sample_job("other", true);
    assert_eq!(
        cancel_denial_reason(&job, "myli"),
        Some("only your active jobs can be cancelled")
    );
}

#[test]
fn forbids_cancel_for_inactive_job() {
    let job = sample_job("myli", false);
    assert_eq!(
        cancel_denial_reason(&job, "myli"),
        Some("job is no longer active")
    );
}

#[test]
fn bulk_cancel_preview_marks_allowed_subset() {
    let mine = sample_job("myli", true);
    let other = sample_job("other", true);
    let done = sample_job("myli", false);
    let candidates = build_bulk_cancel_candidates(&vec![&mine, &other, &done], "myli");
    assert_eq!(
        candidates
            .iter()
            .filter(|candidate| candidate.allowed)
            .count(),
        1
    );
    assert_eq!(
        candidates[1].reason.as_deref(),
        Some("only your active jobs can be cancelled")
    );
}

#[test]
fn bulk_cancel_sends_only_own_active_jobs_in_order() {
    let mut a = sample_job("myli", true);
    a.job_id = "11".to_string();
    let mut b = sample_job("other", true);
    b.job_id = "12".to_string();
    let mut c = sample_job("myli", false);
    c.job_id = "13".to_string();
    let mut d = sample_job("myli", true);
    d.job_id = "14".to_string();
    let candidates = build_bulk_cancel_candidates(&vec![&a, &b, &c, &d], "myli");
    let preview = CancelPreview {
        scope: CancelScope::Visible,
        title: "Cancel visible jobs".to_string(),
        candidates,
    };
    assert_eq!(preview.allowed_job_ids(), vec!["11".to_string(), "14".to_string()]);
    assert_eq!(preview.allowed_count(), 2);
}
