use sqtop::collector::command::{CommandCapture, CommandStatus};
use sqtop::collector::RawSnapshot;
use sqtop::model::aggregate::{aggregate_users, build_snapshot};

fn ok_capture(program: &str, stdout: &str) -> CommandCapture {
    CommandCapture {
        program: program.to_string(),
        args: Vec::new(),
        status: CommandStatus::Success,
        exit_code: Some(0),
        stdout: stdout.to_string(),
        stderr: String::new(),
        duration_ms: 10,
    }
}

fn failed_capture(program: &str, stderr: &str) -> CommandCapture {
    CommandCapture {
        program: program.to_string(),
        args: Vec::new(),
        status: CommandStatus::Failed,
        exit_code: Some(1),
        stdout: String::new(),
        stderr: stderr.to_string(),
        duration_ms: 10,
    }
}

fn raw(
    degraded_notes: Vec<String>,
    nodes: CommandCapture,
    jobs: CommandCapture,
    partition_static: Option<CommandCapture>,
) -> RawSnapshot {
    RawSnapshot {
        collected_at_ms: 1_775_995_200_000,
        local_time: "2026-04-12 12:00:00".to_string(),
        hostname: "login04".to_string(),
        current_user: "myli".to_string(),
        sample_duration_ms: 20,
        stale_partition_static: false,
        degraded_notes,
        nodes,
        jobs,
        partition_static,
    }
}

#[test]
fn aggregates_my_vs_other_usage() {
    let raw = raw(
        Vec::new(),
        ok_capture(
            "sinfo",
            "gpu_l48\x1falloc\x1fc56b01n01\x1f52\x1f515200\x1fgpu:l40:8",
        ),
        ok_capture(
            "squeue",
            "1\x1fmyli\x1fdemo\x1fgpu_l48\x1ftrain\x1fRUNNING\x1f1:00:00\x1f2:00:00\x1f1\x1f8\x1fN/A\x1f2026-04-12T12:00:00\x1f1\x1fc56b01n01\n2\x1fother\x1fdemo\x1fgpu_l48\x1fpending\x1fPENDING\x1f0:00\x1f2:00:00\x1f1\x1f4\x1fN/A\x1f2026-04-12T12:01:00\x1f1\x1f(Resources)",
        ),
        Some(ok_capture(
            "scontrol",
            "PartitionName=gpu_l48 State=UP TotalCPUs=104 TotalNodes=2 TRES=cpu=104,mem=1030400M,node=2,billing=104,gres/gpu=16",
        )),
    );

    let snapshot = build_snapshot(&raw, "myli");
    assert_eq!(snapshot.partitions.len(), 1);
    let partition = &snapshot.partitions[0];
    assert_eq!(partition.mine.running_jobs, 1);
    assert_eq!(partition.others.pending_jobs, 1);
    assert_eq!(partition.total_gpus, Some(16));
}

#[test]
fn aggregates_active_usage_per_user() {
    let raw = raw(
        Vec::new(),
        ok_capture("sinfo", ""),
        ok_capture(
            "squeue",
            "1\x1fmyli\x1fdemo\x1fgpu_l48\x1ftrain\x1fRUNNING\x1f1:00:00\x1f2:00:00\x1f1\x1f8\x1fgres:gpu:1\x1f2026-04-12T12:00:00\x1f1\x1fc56b01n01\n2\x1fother\x1fdemo\x1fgpu_l48\x1fpending\x1fPENDING\x1f0:00\x1f2:00:00\x1f1\x1f4\x1fN/A\x1f2026-04-12T12:01:00\x1f1\x1f(Resources)\n3\x1fother\x1fdemo\x1fcn_long\x1fserve\x1fRUNNING\x1f0:15:00\x1f4:00:00\x1f2\x1f32\x1fN/A\x1f2026-04-12T12:05:00\x1f1\x1fc57b01n02",
        ),
        None,
    );
    let snapshot = build_snapshot(&raw, "myli");
    let mut users = aggregate_users(&snapshot.jobs, "myli");
    users.sort_by(|left, right| left.user.cmp(&right.user));

    assert_eq!(users.len(), 2);
    assert!(users[0].is_current_user);
    assert_eq!(users[0].jobs.running_jobs, 1);
    assert_eq!(users[0].jobs.running_gpus, 1);
    assert_eq!(users[1].jobs.running_jobs, 1);
    assert_eq!(users[1].jobs.pending_jobs, 1);
    assert_eq!(
        users[1].top_partitions_summary(2),
        "cn_long (Running: 1, Pending: 0), gpu_l48 (Running: 0, Pending: 1)"
    );
}

#[test]
fn degrades_gracefully_when_partition_static_is_missing() {
    let raw = raw(
        vec!["partition static data unavailable".to_string()],
        ok_capture(
            "sinfo",
            "cn-long\x1fidle\x1fc59b01n01\x1f192\x1f386200\x1f(null)",
        ),
        ok_capture(
            "squeue",
            "1\x1fmyli\x1fdemo\x1fcn-long\x1ftrim\x1fRUNNING\x1f1:00:00\x1f2:00:00\x1f1\x1f8\x1fN/A\x1f2026-04-12T12:00:00\x1f1\x1fc59b01n01",
        ),
        None,
    );

    let snapshot = build_snapshot(&raw, "myli");
    assert!(snapshot.degraded);
    assert!(snapshot.capabilities.partition_cpu_totals);
    assert!(!snapshot.capabilities.partition_gpu_totals);
}

#[test]
fn surfaces_command_failures_without_crashing() {
    let raw = raw(
        vec!["squeue failed: timeout".to_string()],
        ok_capture(
            "sinfo",
            "cn-long\x1fidle\x1fc59b01n01\x1f192\x1f386200\x1f(null)",
        ),
        failed_capture("squeue", "timeout"),
        None,
    );

    let snapshot = build_snapshot(&raw, "myli");
    assert!(snapshot.degraded);
    assert!(snapshot.jobs.is_empty());
    assert!(!snapshot.notes.is_empty());
}

#[test]
fn keeps_partial_job_output_when_squeue_times_out() {
    let raw = raw(
        vec!["squeue failed".to_string()],
        ok_capture("sinfo", "gpu_l48\x1falloc\x1fc56b01n01\x1f52\x1f515200\x1fgpu:l40:8"),
        CommandCapture {
            program: "squeue".to_string(),
            args: Vec::new(),
            status: CommandStatus::TimedOut,
            exit_code: None,
            stdout: "1\x1fmyli\x1fdemo\x1fgpu_l48\x1ftrain\x1fRUNNING\x1f1:00:00\x1f2:00:00\x1f1\x1f8\x1fgres:gpu:1\x1f2026-04-12T12:00:00\x1f1\x1fc56b01n01".to_string(),
            stderr: String::new(),
            duration_ms: 5000,
        },
        Some(ok_capture(
            "scontrol",
            "PartitionName=gpu_l48 State=UP TotalCPUs=104 TotalNodes=2 TRES=cpu=104,mem=1030400M,node=2,billing=104,gres/gpu=16",
        )),
    );

    let snapshot = build_snapshot(&raw, "myli");
    assert!(snapshot.degraded);
    assert_eq!(snapshot.jobs.len(), 1);
    assert_eq!(snapshot.partitions[0].mine.running_jobs, 1);
}
