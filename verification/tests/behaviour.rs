use sqtop::app::{
    cancel_message, main_pages, merge_detail_fields, merge_job_detail, state_sort_key,
    job_id_key, CancelOutcome, CancelReport, CancelScope, HistoryFilter, JobColumn, JobFilter,
    JobSortState, OverviewColumn, OverviewSortState, Page, SortDirection, TrendSeries,
    UserColumn,
};
use sqtop::cli::{Cli, FileConfig, HistoryWindow, ResolvedCli, ThemeChoice};
use sqtop::collector::command::{CommandCapture, CommandStatus};
use sqtop::collector::{degraded_notes, Collector};
use sqtop::listing::{collect_jobs, JobListQuery};
use sqtop::model::parse::{parse_gpu_count, parse_jobs, parse_slurm_duration, parse_tres_value};
use sqtop::model::types::{format_mem_mb, JobDetail, JobRecord, MetricMode};
use sqtop::state::{
    footer_actions, is_stale, move_index, next_page_index, prev_page_index, FooterAction,
};
use sqtop::ui::{
    chunk_text, metric_bar_text, pad_right, pressure_bar_text, scaled_bar_width,
    scroll_metrics, segment_text, tail_sample, truncate_chars, wide_table_title, wrap_text,
};

fn capture(program: &str, status: CommandStatus, stdout: &str, stderr: &str) -> CommandCapture {
    CommandCapture {
        program: program.to_string(),
        args: Vec::new(),
        status,
        exit_code: None,
        stdout: stdout.to_string(),
        stderr: stderr.to_string(),
        duration_ms: 1,
    }
}

fn job(id: &str, user: &str, state: &str, runtime: Option<u64>) -> JobRecord {
    JobRecord {
        job_id: id.to_string(),
        user: user.to_string(),
        account: None,
        partition_raw: "gpu".to_string(),
        partitions: vec!["gpu".to_string()],
        name: format!("job-{id}"),
        state: state.to_string(),
        runtime_raw: String::new(),
        time_limit_raw: String::new(),
        runtime_secs: runtime,
        time_limit_secs: None,
        nodes: 1,
        cpus: Some(4),
        memory_mb: None,
        requested_gpus: None,
        gres: None,
        req_tres: None,
        alloc_tres: None,
        location_or_reason: "node1".to_string(),
        submit_time: None,
        priority: None,
        is_mine: user == "me",
        active: true,
        running: state == "RUNNING",
        pending: state == "PENDING",
    }
}

#[test]
fn metric_modes_cycle_back_after_four_steps() {
    let start = MetricMode::Jobs;
    let back = start.next().next().next().next();
    assert_eq!(back, start);
    assert_eq!(MetricMode::Cpus.label(), "cpu");
}

#[test]
fn history_window_labels_and_start_times() {
    assert_eq!(HistoryWindow::D3.label(), "3d");
    assert_eq!(HistoryWindow::D7.sacct_start(), "now-7days");
    assert_eq!(HistoryWindow::H24.next().next().next(), HistoryWindow::H24);
}

#[test]
fn choosing_a_header_twice_reverses_then_restores() {
    let mut sort = OverviewSortState { column: OverviewColumn::Pressure, direction: SortDirection::Desc };
    sort.choose_column(OverviewColumn::Nodes);
    assert_eq!(sort.column, OverviewColumn::Nodes);
    assert_eq!(sort.direction, SortDirection::Desc);
    sort.choose_column(OverviewColumn::Nodes);
    assert_eq!(sort.direction, SortDirection::Asc);
    sort.choose_column(OverviewColumn::Nodes);
    assert_eq!(sort.direction, SortDirection::Desc);
    assert_eq!(sort.label(), "Nodes ↓");
    let cycled = JobSortState { column: JobColumn::WhereWhy, direction: SortDirection::Asc }.cycle();
    assert_eq!(cycled.column, JobColumn::JobId);
    assert_eq!(cycled.direction, SortDirection::Desc);
    assert_eq!(UserColumn::Partitions.next(), UserColumn::User);
}

#[test]
fn trend_series_keeps_only_the_last_samples() {
    let mut t = TrendSeries::default();
    for k in 0..5u64 {
        t.push(k, 10 + k, 3);
    }
    assert_eq!(t.running_points(), vec![2, 3, 4]);
    assert_eq!(t.pending_points(), vec![12, 13, 14]);
    assert_eq!(t.latest_running(), 4);
    assert_eq!(t.latest_pending(), 14);
    let empty = TrendSeries::default();
    assert_eq!(empty.latest_running(), 0);
}

#[test]
fn merging_details_fills_only_missing_fields() {
    let mut target = JobDetail {
        job_id: "7".to_string(),
        name: Some("from-acct".to_string()),
        user: None,
        account: None,
        partition: None,
        state: None,
        reason: None,
        exit_code: None,
        nodes: None,
        n_tasks: None,
        cpus: Some(2),
        memory_mb: None,
        requested_gpus: None,
        gres: None,
        req_tres: None,
        alloc_tres: None,
        runtime_raw: None,
        time_limit_raw: None,
        submit_time: None,
        start_time: None,
        end_time: None,
        node_list: None,
        work_dir: None,
        command: None,
        stdout_path: None,
        stderr_path: None,
        source_notes: Vec::new(),
        active: false,
        is_mine: false,
    };
    let mut incoming = target.clone();
    incoming.name = Some("from-live".to_string());
    incoming.user = Some("me".to_string());
    incoming.cpus = Some(8);
    incoming.active = true;
    merge_detail_fields(&mut target, &incoming);
    assert_eq!(target.name.as_deref(), Some("from-acct"));
    assert_eq!(target.user.as_deref(), Some("me"));
    assert_eq!(target.cpus, Some(2));
    assert!(target.active);
    let again = target.clone();
    merge_detail_fields(&mut target, &incoming);
    assert_eq!(target.user, again.user);
    assert_eq!(target.name, again.name);
}

#[test]
fn job_detail_without_any_parsable_output_is_an_error() {
    let live = capture("scontrol", CommandStatus::Failed, "", "no such job");
    let acct = capture("sacct", CommandStatus::Failed, "", "");
    let r = merge_job_detail(live, acct, "me");
    assert_eq!(
        r.err().as_deref(),
        Some("job detail unavailable: no parsable scontrol or sacct output")
    );
}

#[test]
fn short_errors_cover_each_status() {
    assert_eq!(capture("sinfo", CommandStatus::Success, "", "").short_error(), None);
    assert_eq!(capture("sinfo", CommandStatus::Cancelled, "", "x").short_error(), None);
    assert_eq!(
        capture("squeue", CommandStatus::TimedOut, "", "").short_error().as_deref(),
        Some("squeue timed out")
    );
    assert_eq!(
        capture("squeue", CommandStatus::TimedOut, "1\x1f2", "").short_error().as_deref(),
        Some("squeue timed out; using partial data")
    );
    assert_eq!(
        capture("sacct", CommandStatus::Failed, "", "  ").short_error().as_deref(),
        Some("sacct failed")
    );
    assert_eq!(
        capture("sacct", CommandStatus::SpawnError, "", " boom\nmore ").short_error().as_deref(),
        Some("sacct failed: boom")
    );
}

#[test]
fn degraded_notes_mention_missing_partition_data() {
    let ok = capture("sinfo", CommandStatus::Success, "x", "");
    let failed = capture("squeue", CommandStatus::Failed, "", "down");
    let notes = degraded_notes(&ok, &failed, &None);
    assert_eq!(
        notes,
        vec![
            "squeue failed: down".to_string(),
            "partition static data unavailable".to_string()
        ]
    );
    let ps = capture("scontrol", CommandStatus::TimedOut, "", "");
    let notes = degraded_notes(&ok, &ok, &Some(ps));
    assert_eq!(
        notes,
        vec!["partition static data unavailable: scontrol timed out".to_string()]
    );
}

#[test]
fn cancel_messages_follow_the_capture() {
    assert_eq!(cancel_message(&capture("scancel", CommandStatus::Success, "", "")), "cancelled");
    assert_eq!(
        cancel_message(&capture("scancel", CommandStatus::TimedOut, "", " ")),
        "failed (TimedOut)"
    );
    assert_eq!(
        cancel_message(&capture("scancel", CommandStatus::Failed, "", "denied\nmore")),
        "denied"
    );
}

#[test]
fn cancel_report_counts_outcomes() {
    let report = CancelReport {
        scope: CancelScope::Visible,
        results: vec![
            CancelOutcome { job_id: "1".to_string(), success: true, message: String::new() },
            CancelOutcome { job_id: "2".to_string(), success: false, message: String::new() },
            CancelOutcome { job_id: "3".to_string(), success: true, message: String::new() },
        ],
    };
    assert_eq!(report.succeeded(), 2);
    assert_eq!(report.failed(), 1);
}

#[test]
fn collector_requests_and_partition_cache() {
    let mut c = Collector::new("me", "host1".to_string());
    let nodes = c.nodes_request();
    assert_eq!(nodes.program, "sinfo");
    assert_eq!(nodes.args, vec!["-Nh", "-o", "%P\u{1f}%t\u{1f}%N\u{1f}%c\u{1f}%m\u{1f}%G"]);
    let hist = c.history_request(HistoryWindow::D3, true);
    assert_eq!(hist.args[0], "-a");
    assert_eq!(hist.args[5], "now-3days");
    let cancel = c.cancel_request(&vec!["12".to_string(), "13".to_string()]);
    assert_eq!(cancel.program, "scancel");
    assert_eq!(cancel.args, vec!["12", "13"]);
    assert_eq!(c.runner().timeout_ms(), 5000);
    assert!(c.cached_partition_static(0).is_none());
    let ok = capture("scontrol", CommandStatus::Success, "PartitionName=a", "");
    c.remember_partition_static(&ok, 1000);
    assert_eq!(c.cached_partition_static(1000).map(|x| x.stdout), Some("PartitionName=a".to_string()));
    assert!(c.cached_partition_static(30_999).is_some());
    assert!(c.cached_partition_static(31_000).is_none());
    let failed = capture("scontrol", CommandStatus::Failed, "", "x");
    c.remember_partition_static(&failed, 2000);
    assert!(c.cached_partition_static(2000).is_some());
}

#[test]
fn resolve_prefers_command_line_then_file_then_defaults() {
    let cli = Cli {
        interval_ms: Some(100),
        user: None,
        all: false,
        no_all_jobs: false,
        theme: None,
        debug_dump: false,
        once: false,
        compact: false,
        no_color: true,
        history_window: None,
        advanced_resources: false,
        no_advanced_resources: false,
    };
    let mut file = FileConfig::default();
    file.user = Some("fileuser".to_string());
    file.theme = Some(ThemeChoice::Light);
    file.start_in_all_jobs = Some(true);
    let r = ResolvedCli::resolve(cli.clone(), Some(file.clone()), "detected".to_string());
    assert_eq!(r.interval_ms, 250);
    assert_eq!(r.user, "fileuser");
    assert_eq!(r.theme, ThemeChoice::Light);
    assert!(r.start_in_all_jobs);
    assert!(r.no_color);
    assert_eq!(r.history_window, HistoryWindow::H24);
    let r2 = ResolvedCli::resolve(cli, None, "detected".to_string());
    assert_eq!(r2.user, "detected");
    assert_eq!(r2.theme, ThemeChoice::Auto);
    assert!(r2.show_advanced_resources);
}

#[test]
fn job_list_filters_searches_and_sorts() {
    let jobs = vec![
        job("10", "me", "RUNNING", Some(50)),
        job("9", "you", "PENDING", None),
        job("11", "me", "RUNNING", Some(500)),
    ];
    let mut q = JobListQuery {
        mine_only_page: false,
        global_mine_only: false,
        pinned_partition: None,
        page_partition: None,
        page_user: None,
        filter: JobFilter::All,
        query: String::new(),
        sort: JobSortState { column: JobColumn::Runtime, direction: SortDirection::Desc },
    };
    assert_eq!(collect_jobs(&jobs, &q), vec![2, 0, 1]);
    q.sort.direction = SortDirection::Asc;
    assert_eq!(collect_jobs(&jobs, &q), vec![1, 0, 2]);
    q.filter = JobFilter::Running;
    assert_eq!(collect_jobs(&jobs, &q), vec![0, 2]);
    q.query = "JOB-11".to_string();
    assert_eq!(collect_jobs(&jobs, &q), vec![2]);
    q.query = String::new();
    q.filter = JobFilter::Active;
    q.mine_only_page = true;
    q.sort = JobSortState { column: JobColumn::JobId, direction: SortDirection::Asc };
    assert_eq!(collect_jobs(&jobs, &q), vec![0, 2]);
}

#[test]
fn sort_keys_rank_states_and_ids() {
    assert_eq!(state_sort_key("RUNNING").0, 0);
    assert_eq!(state_sort_key("CANCELLED").0, 8);
    assert_eq!(state_sort_key("weird").0, 9);
    assert_eq!(job_id_key("123"), (123, "123"));
    assert_eq!(job_id_key("12_3"), (0, "12_3"));
}

#[test]
fn history_filter_ignores_case() {
    let mut record = sqtop::model::parse::parse_history(
        "1|n|me|gpu|node_fail|0:0|00:01:00|a|b||",
        "me",
    )
    .0;
    let h = record.remove(0);
    assert!(HistoryFilter::Failed.matches(&h));
    assert!(!HistoryFilter::Completed.matches(&h));
    assert_eq!(HistoryFilter::Running.next(), HistoryFilter::All);
}

#[test]
fn page_navigation_wraps_and_round_trips() {
    assert_eq!(main_pages(true).len(), 4);
    assert_eq!(main_pages(false), vec![Page::Overview, Page::MyJobs, Page::Users]);
    assert_eq!(next_page_index(3, 4, false), 0);
    assert_eq!(prev_page_index(0, 4, false), 3);
    assert_eq!(prev_page_index(next_page_index(2, 3, false), 3, false), 2);
    assert_eq!(next_page_index(1, 3, true), 1);
    assert_eq!(move_index(0, -1, 5), 0);
    assert_eq!(move_index(3, 4, 5), 4);
    assert_eq!(move_index(3, 1, 0), 3);
    assert_eq!(Page::PartitionDetail.label(), "Partition Detail");
}

#[test]
fn footer_lists_actions_by_page() {
    assert_eq!(
        footer_actions(Page::Overview),
        vec![
            FooterAction::Refresh,
            FooterAction::Help,
            FooterAction::ToggleMine,
            FooterAction::OpenDetail
        ]
    );
    assert_eq!(footer_actions(Page::MyJobs)[0], FooterAction::BackOverview);
    assert_eq!(footer_actions(Page::PartitionDetail).last(), Some(&FooterAction::OpenNode));
}

#[test]
fn staleness_uses_three_intervals_and_at_least_five_seconds() {
    assert!(!is_stale(10_000, 5_000, 2000));
    assert!(!is_stale(11_999, 5_000, 2000));
    assert!(is_stale(12_000, 5_000, 2000));
    assert!(!is_stale(14_000, 5_000, 2500));
    assert!(is_stale(15_000, 5_000, 2500));
}

#[test]
fn text_cells_wrap_pad_and_cut() {
    assert_eq!(chunk_text("abcdefg", 3), vec!["abc", "def", "g"]);
    assert_eq!(chunk_text("", 3), vec![""]);
    assert_eq!(chunk_text("ab", 0), vec!["a", "b"]);
    assert_eq!(wrap_text("abcd\nxy", 3), vec!["abc", "d", "xy"]);
    assert_eq!(pad_right("ab", 4), "ab  ");
    assert_eq!(pad_right("abcdef", 4), "abcd");
    assert_eq!(truncate_chars("héllo", 2), "hé");
    assert_eq!(segment_text("abcdefgh", 1, 3), "def");
    assert_eq!(segment_text("abc", 5, 3), "");
    assert_eq!(wide_table_title("Jobs", 0, 0), "Jobs");
    assert_eq!(wide_table_title("Jobs", 2, 1), "Jobs  ← 2 hidden  1 hidden →");
    assert_eq!(tail_sample(&vec![1, 2, 3], 5), vec![0, 0, 1, 2, 3]);
    assert_eq!(tail_sample(&vec![1, 2, 3], 2), vec![2, 3]);
}

#[test]
fn scroll_metrics_clamp_to_the_last_page() {
    assert_eq!(scroll_metrics(10, 6, 100), (6, 10, 7, 10, 4));
    assert_eq!(scroll_metrics(0, 1, 3), (0, 1, 1, 1, 1));
}

#[test]
fn bars_and_percentages_match_float_rounding() {
    for value in 0..40u64 {
        for capacity in 1..12u64 {
            for width in [1usize, 5, 12, 20] {
                let expected = (((value as f64 / capacity as f64) * width as f64).round() as usize)
                    .min(width);
                assert_eq!(scaled_bar_width(value, capacity, width), expected);
                let ratio = (value as f64 / capacity as f64).clamp(0.0, 1.0);
                let filled = ((width as f64) * ratio).round() as usize;
                let text = format!(
                    "[{}{}] {:>3.0}%",
                    "█".repeat(filled),
                    "·".repeat(width.saturating_sub(filled)),
                    ratio * 100.0
                );
                assert_eq!(pressure_bar_text(value, Some(capacity), width), text);
            }
        }
    }
    assert_eq!(pressure_bar_text(1, None, 5), "[n/a]");
    assert_eq!(metric_bar_text(3, 6, 4, 3), "[██··]   3");
}

#[test]
fn memory_sizes_match_float_formatting() {
    for mb in [0u64, 1, 512, 1023, 1024, 1280, 1536, 2047, 1_048_575, 1_048_576, 1_310_720, 5_000_000] {
        let expected = if mb >= 1024 * 1024 {
            format!("{:.1}T", mb as f64 / 1024.0 / 1024.0)
        } else if mb >= 1024 {
            format!("{:.1}G", mb as f64 / 1024.0)
        } else {
            format!("{mb}M")
        };
        assert_eq!(format_mem_mb(mb), expected);
    }
}

#[test]
fn durations_gpus_and_tres_values_parse_exactly() {
    assert_eq!(parse_slurm_duration("1-02:03:04"), Some(93784));
    assert_eq!(parse_slurm_duration("05:06"), Some(306));
    assert_eq!(parse_slurm_duration("INVALID"), None);
    assert_eq!(parse_gpu_count("gpu:a100:4(S:0-1),gpu:v100:2"), Some(3));
    assert_eq!(parse_gpu_count("gres/gpu=4,gpu:v100:2"), Some(6));
    assert_eq!(parse_gpu_count("(null)"), None);
    assert_eq!(parse_tres_value("1.5K"), Some(0));
    assert_eq!(parse_tres_value("2048K"), Some(2));
    assert_eq!(parse_tres_value("-3"), Some(0));
}

#[test]
fn squeue_states_are_uppercased() {
    let input = "5\x1fme\x1fa\x1fgpu\x1fn\x1frunning\x1f0:01\x1f1:00\x1f1\x1f2\x1fN/A\x1fN/A\x1f1\x1fnode";
    let (jobs, notes) = parse_jobs(input, "me");
    assert!(notes.is_empty());
    assert_eq!(jobs[0].state, "RUNNING");
    assert!(jobs[0].running);
}
