use sqtop::app::{
    CancelOutcome, CancelReport, CancelScope, DetailRequest, HistoryFilter, HistorySort,
};
use sqtop::collector::command::{CommandCapture, CommandStatus};
use sqtop::listing::{visible_history, HistoryQuery};
use sqtop::model::aggregate::aggregate_partitions;
use sqtop::model::limits::history_fit_exec;
use sqtop::model::parse::{parse_history, parse_jobs, parse_resource_map, parse_tres_value};
use sqtop::model::types::{
    JobRecord, MetricMode, NodeRecord, PartitionSpec, UsageStats,
};
use sqtop::model::users::UserUsage;
use sqtop::state::{is_double_click, load_history, HitTarget};
use sqtop::strmap::StrMap;
use sqtop::ui::{right_border_for, UserResourceScale};

fn job(id: &str, mine: bool, partitions: &[&str], running: bool) -> JobRecord {
    JobRecord {
        job_id: id.to_string(),
        user: if mine { "me" } else { "other" }.to_string(),
        account: None,
        partition_raw: partitions.join(","),
        partitions: partitions.iter().map(|p| p.to_string()).collect(),
        name: "work".to_string(),
        state: if running { "RUNNING" } else { "PENDING" }.to_string(),
        runtime_raw: String::new(),
        time_limit_raw: String::new(),
        runtime_secs: None,
        time_limit_secs: None,
        nodes: 1,
        cpus: Some(4),
        memory_mb: None,
        requested_gpus: None,
        gres: None,
        req_tres: None,
        alloc_tres: None,
        location_or_reason: String::new(),
        submit_time: None,
        priority: None,
        is_mine: mine,
        active: true,
        running,
        pending: !running,
    }
}

fn node(partition: &str, state: &str, cpus: u32, gpus: Option<u32>) -> NodeRecord {
    NodeRecord {
        partition: partition.to_string(),
        state: state.to_string(),
        node_name: "n".to_string(),
        cpus: Some(cpus),
        memory_mb: Some(100),
        gpus,
        gres: None,
    }
}

fn usage(running_nodes: u32, pending_nodes: u32, running_cpus: u64, pending_cpus: u64, gpus: u64) -> UsageStats {
    UsageStats {
        running_jobs: 1,
        pending_jobs: 1,
        running_nodes,
        pending_nodes,
        running_cpus,
        pending_cpus,
        running_gpus: gpus,
        pending_gpus: 0,
    }
}

#[test]
fn partition_listing_follows_specs_nodes_and_jobs() {
    let specs = vec![PartitionSpec {
        name: "gpu".to_string(),
        state: "UP".to_string(),
        total_nodes: Some(2),
        total_cpus: None,
        total_mem_mb: None,
        total_gpus: Some(16),
    }];
    let nodes = vec![
        node("gpu", "alloc", 8, Some(4)),
        node("gpu", "idle", 8, Some(4)),
        node("cpu", "idle", 8, None),
        node("cpu", "resv", 16, None),
    ];
    let jobs = vec![job("1", true, &["gpu"], true), job("2", false, &["extra", "extra"], false)];
    let parts = aggregate_partitions(&specs, &nodes, &jobs);
    let names: Vec<&str> = parts.iter().map(|p| p.name.as_str()).collect();
    assert_eq!(names, vec!["cpu", "extra", "gpu"]);
    let cpu = &parts[0];
    assert_eq!(cpu.state, "UP");
    assert_eq!(cpu.total_nodes, 2);
    assert_eq!(cpu.total_cpus, Some(24));
    assert_eq!(cpu.total_mem_mb, Some(200));
    assert_eq!(cpu.total_gpus, None);
    assert_eq!(cpu.node_state_summary(), "idle:1 resv:1");
    let extra = &parts[1];
    assert_eq!(extra.state, "UNKNOWN");
    assert_eq!(extra.total_nodes, 0);
    assert_eq!(extra.total_cpus, None);
    assert_eq!(extra.others.pending_jobs, 1);
    let gpu = &parts[2];
    assert_eq!(gpu.total_nodes, 2);
    assert_eq!(gpu.total_gpus, Some(16));
    assert_eq!(gpu.node_state_summary(), "idle:1 alloc:1");
    assert_eq!(gpu.mine.running_jobs, 1);
    assert_eq!(gpu.mine.running_cpus, 4);
}

#[test]
fn squeue_lines_give_one_job_or_one_note_each() {
    let good = "1\x1fme\x1fdemo\x1fgpu\x1ftrain\x1frunning\x1f1:00:00\x1f2:00:00\x1f1\x1f8\x1fN/A\x1f2026-04-12T12:00:00\x1f1\x1fnode1";
    let input = format!("{good}\n\n x\x1fy\n{good}");
    let (jobs, notes) = parse_jobs(&input, "me");
    assert_eq!(jobs.len() + notes.len(), 3);
    assert_eq!(notes, vec!["ignored squeue line 3 with 2 fields".to_string()]);
    assert_eq!(jobs[0].state, "RUNNING");
    assert!(jobs[0].running && jobs[0].active && !jobs[0].pending);
    assert!(jobs[1].is_mine);
}

#[test]
fn history_listing_filters_and_orders() {
    let input = "10|a|me|gpu|COMPLETED|0:0|00:10:00|2026-04-10T10:00:00|2026-04-10T10:10:00||\n\
                 11|b|other|cpu|FAILED|1:0|00:20:00|2026-04-11T10:00:00|2026-04-11T10:20:00||\n\
                 12|c|me|cpu|COMPLETED|0:0|00:05:00|2026-04-12T10:00:00|2026-04-12T10:05:00||";
    let (records, notes) = parse_history(input, "me");
    assert!(notes.is_empty());
    let mut q = HistoryQuery {
        mine_only: false,
        pinned_partition: None,
        state_filter: HistoryFilter::All,
        query: String::new(),
        sort: HistorySort::EndTime,
    };
    assert_eq!(visible_history(&records, &q), vec![2, 1, 0]);
    q.sort = HistorySort::Elapsed;
    assert_eq!(visible_history(&records, &q), vec![1, 0, 2]);
    q.sort = HistorySort::EndTime;
    q.mine_only = true;
    assert_eq!(visible_history(&records, &q), vec![2, 0]);
    q.mine_only = false;
    q.query = "CPU".to_string();
    assert_eq!(visible_history(&records, &q), vec![2, 1]);
    q.query = String::new();
    q.pinned_partition = Some("gpu".to_string());
    assert_eq!(visible_history(&records, &q), vec![0]);
    q.pinned_partition = None;
    q.state_filter = HistoryFilter::Failed;
    assert_eq!(visible_history(&records, &q), vec![1]);
}

#[test]
fn history_fit_rejects_elapsed_past_u64() {
    assert!(history_fit_exec("1|n|me|gpu|COMPLETED|0:0|00:10:00|a|b||"));
    assert!(!history_fit_exec("1|n|me|gpu|COMPLETED|0:0|6000000000000000:00:00|a|b||"));
    assert!(history_fit_exec("short|line"));
}

#[test]
fn history_load_keeps_notes_and_availability() {
    let ok = CommandCapture {
        program: "sacct".to_string(),
        args: Vec::new(),
        status: CommandStatus::Success,
        exit_code: Some(0),
        stdout: "1|n|me|gpu|COMPLETED|0:0|00:10:00|a|b||".to_string(),
        stderr: String::new(),
        duration_ms: 1,
    };
    let (records, notes, available) = load_history(&ok, "me");
    assert_eq!(records.len(), 1);
    assert!(notes.is_empty());
    assert!(available);
    let failed = CommandCapture {
        status: CommandStatus::Failed,
        stdout: String::new(),
        stderr: "boom\nmore".to_string(),
        ..ok
    };
    let (records, notes, available) = load_history(&failed, "me");
    assert!(records.is_empty());
    assert_eq!(notes, vec!["sacct failed: boom".to_string()]);
    assert!(!available);
}

#[test]
fn resource_map_reads_each_key_value() {
    let m = parse_resource_map("cpu=8,mem=8000M,gres/gpu=2,bad,x=?");
    assert_eq!(m.len(), 3);
    assert_eq!(m.get_str("cpu"), Some(&8));
    assert_eq!(m.get_str("mem"), Some(&8000));
    assert_eq!(m.get_str("gres/gpu"), Some(&2));
    assert_eq!(m.get_str("x"), None);
}

#[test]
fn usage_totals_and_user_scale() {
    let u = usage(2, 1, 10, 6, 0);
    assert_eq!(u.active_total(MetricMode::Cpus), 16);
    assert_eq!(u.active_total(MetricMode::Jobs), 2);
    assert_eq!(u.active_total(MetricMode::Nodes), 3);
    let users = vec![
        UserUsage { user: "a".to_string(), is_current_user: true, jobs: u, partitions: StrMap::new() },
        UserUsage {
            user: "b".to_string(),
            is_current_user: false,
            jobs: usage(1, 0, 100, 0, 4),
            partitions: StrMap::new(),
        },
    ];
    let scale = UserResourceScale::from_users(&users);
    assert_eq!((scale.max_nodes, scale.max_cpus, scale.max_gpus), (3, 100, 4));
    let empty = UserResourceScale::from_users(&Vec::new());
    assert_eq!((empty.max_nodes, empty.max_cpus, empty.max_gpus), (1, 1, 1));
}

#[test]
fn box_corners_match() {
    assert_eq!(right_border_for('├'), '┤');
    assert_eq!(right_border_for('└'), '┘');
}

#[test]
fn cancel_report_status_line() {
    let report = CancelReport {
        scope: CancelScope::Visible,
        results: vec![
            CancelOutcome { job_id: "1".to_string(), success: true, message: String::new() },
            CancelOutcome { job_id: "2".to_string(), success: false, message: String::new() },
            CancelOutcome { job_id: "3".to_string(), success: true, message: String::new() },
        ],
    };
    assert_eq!(report.summary_line(), "Cancelled 2 job(s); 1 failed");
}

#[test]
fn detail_request_drops_late_answers() {
    let mut request = DetailRequest::new("42".to_string());
    assert!(request.loading);
    request.receive("41", None, Some("late".to_string()));
    assert!(request.loading);
    assert!(request.error.is_none());
    request.receive("42", None, Some("gone".to_string()));
    assert!(!request.loading);
    assert_eq!(request.error.as_deref(), Some("gone"));
}

#[test]
fn tres_values_read_float_forms() {
    assert_eq!(parse_tres_value("1e3"), Some(1000));
    assert_eq!(parse_tres_value("1e3G"), Some(1024000));
    assert_eq!(parse_tres_value("1E3"), Some(1000));
    assert_eq!(parse_tres_value("1e+3"), Some(1000));
    assert_eq!(parse_tres_value("1.5e2"), Some(150));
    assert_eq!(parse_tres_value("1.e3"), Some(1000));
    assert_eq!(parse_tres_value(".5e1"), Some(5));
    assert_eq!(parse_tres_value("5e-1"), Some(1));
    assert_eq!(parse_tres_value("2.5e-1"), Some(0));
    assert_eq!(parse_tres_value("12345e-2"), Some(123));
    assert_eq!(parse_tres_value("1e400"), Some(u64::MAX));
    assert_eq!(parse_tres_value("1e99999999999999999999999"), Some(u64::MAX));
    assert_eq!(parse_tres_value("1e-400"), Some(0));
    assert_eq!(parse_tres_value("0e999"), Some(0));
    assert_eq!(parse_tres_value("-1e3"), Some(0));
    assert_eq!(parse_tres_value("infG"), Some(u64::MAX));
    assert_eq!(parse_tres_value("INFINITYK"), Some(u64::MAX));
    assert_eq!(parse_tres_value("-infM"), Some(0));
    assert_eq!(parse_tres_value("nanM"), Some(0));
    assert_eq!(parse_tres_value("inf"), None);
    assert_eq!(parse_tres_value("1e"), Some(1));
    assert_eq!(parse_tres_value("e3"), None);
    assert_eq!(parse_tres_value("1e3.5"), None);
    assert_eq!(parse_tres_value("512K"), Some(1));
    assert_eq!(parse_tres_value("62.50G"), Some(64000));
}

#[test]
fn double_click_needs_same_target_within_450_ms() {
    let hit = HitTarget::Modal(sqtop::state::ModalAction::Ignore);
    assert!(!is_double_click(None, hit, 100));
    assert!(is_double_click(Some((hit, 100)), hit, 549));
    assert!(!is_double_click(Some((hit, 100)), hit, 550));
    let other = HitTarget::Modal(sqtop::state::ModalAction::Confirm);
    assert!(!is_double_click(Some((other, 100)), hit, 200));
}
