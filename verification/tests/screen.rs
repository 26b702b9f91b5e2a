use sqtop::app::{JobColumn, OverviewColumn, Page, SortDirection};
use sqtop::collector::command::{CommandCapture, CommandStatus};
use sqtop::collector::Collector;
use sqtop::cli::HistoryWindow;
use sqtop::control::{Effect, Focus, JobTable, Key, ModalKind, TableLengths, UiState};
use sqtop::listing::{collect_jobs, partitions_listable, users_listable, visible_users};
use sqtop::model::aggregate::aggregate_users;
use sqtop::model::types::{
    Capabilities, ClusterSnapshot, JobRecord, MetricMode, NodeRecord, PartitionOverview,
    SourceHealth, UsageStats,
};
use sqtop::report::once_summary_lines;
use sqtop::state::{FooterAction, HitTarget, InputMode, ModalAction, RowKind};
use sqtop::strmap::StrMap;
use sqtop::panel::Accent;
use sqtop::state::Area;
use sqtop::ui::{
    job_tone, partition_tone, pressure_band, stacked_widths, state_tone, trend_grid, users_fit_exec, Band,
    JobTone, StateTone, TrendMark,
};

fn sample_job(user: &str, active: bool) -> JobRecord {
    JobRecord {
        job_id: "1".to_string(),
        user: user.to_string(),
        account: Some("demo".to_string()),
        partition_raw: "gpu_l48".to_string(),
        partitions: vec!["gpu_l48".to_string()],
        name: "train".to_string(),
        state: if active { "RUNNING" } else { "COMPLETED" }.to_string(),
        runtime_raw: "1:00:00".to_string(),
        time_limit_raw: "2:00:00".to_string(),
        runtime_secs: Some(3600),
        time_limit_secs: Some(7200),
        nodes: 1,
        cpus: Some(8),
        memory_mb: Some(8000),
        requested_gpus: Some(1),
        gres: Some("gres:gpu:1".to_string()),
        req_tres: Some("cpu=8,mem=8000M,gres/gpu=1".to_string()),
        alloc_tres: Some("cpu=8,mem=8000M,gres/gpu=1".to_string()),
        location_or_reason: "c56b01n01".to_string(),
        submit_time: Some("2026-04-12T12:00:00".to_string()),
        priority: Some(1),
        is_mine: user == "myli",
        active,
        running: active,
        pending: false,
    }
}

fn usage(running_jobs: u32, pending_jobs: u32, running_nodes: u32, pending_nodes: u32, running_cpus: u64, pending_cpus: u64, running_gpus: u64, pending_gpus: u64) -> UsageStats {
    UsageStats {
        running_jobs,
        pending_jobs,
        running_nodes,
        pending_nodes,
        running_cpus,
        pending_cpus,
        running_gpus,
        pending_gpus,
    }
}

fn counts(pairs: &[(&str, u32)]) -> StrMap<u32> {
    let mut m = StrMap::new();
    for (k, v) in pairs {
        m.insert(k.chars().collect(), *v);
    }
    m
}

fn snapshot_with(jobs: Vec<JobRecord>, partitions: Vec<PartitionOverview>) -> ClusterSnapshot {
    ClusterSnapshot {
        collected_at_ms: 0,
        local_time: "2026-04-12 12:00:00".to_string(),
        hostname: "login04".to_string(),
        current_user: "myli".to_string(),
        sample_duration_ms: 12,
        stale_partition_static: false,
        degraded: false,
        notes: Vec::new(),
        capabilities: Capabilities {
            account: false,
            submit_time: false,
            priority: false,
            job_cpus: false,
            job_gpus: false,
            partition_cpu_totals: false,
            partition_gpu_totals: false,
            partition_static: false,
            sacct_history: false,
            job_detail: false,
            req_tres: false,
            alloc_tres: false,
        },
        source_health: SourceHealth { nodes_ok: true, jobs_ok: true, partition_static_ok: true },
        nodes: vec![NodeRecord {
            partition: "gpu_l48".to_string(),
            state: "alloc".to_string(),
            node_name: "c56b01n01".to_string(),
            cpus: Some(52),
            memory_mb: Some(515200),
            gpus: Some(8),
            gres: Some("gpu:l40:8".to_string()),
        }],
        partitions,
        jobs,
    }
}

fn no_focus() -> Focus {
    Focus {
        rows: 0,
        partition: None,
        job: None,
        partition_nodes: 0,
        node: None,
        node_users: 0,
        node_states: 0,
    }
}

#[test]
fn search_filters_visible_rows_before_enter() {
    let snapshot = snapshot_with(vec![sample_job("myli", true)], Vec::new());
    let mut ui = UiState::new(true, false);
    ui.main_index = 3;
    assert_eq!(ui.page(), Page::AllJobs);
    assert_eq!(collect_jobs(&snapshot.jobs, &ui.job_query(JobTable::AllJobs, "")).len(), 1);
    ui.input_mode = InputMode::Search;
    ui.search_draft = "does-not-match".to_string();
    assert_eq!(collect_jobs(&snapshot.jobs, &ui.job_query(JobTable::AllJobs, "")).len(), 0);
}

#[test]
fn visible_users_respects_current_user_toggle() {
    let jobs = vec![sample_job("myli", true), sample_job("other", true)];
    let users = aggregate_users(&jobs, "myli");
    assert!(users_listable(&users));
    let mut ui = UiState::new(true, false);
    assert_eq!(visible_users(&users, &ui.user_query()).len(), 2);
    ui.show_only_mine = true;
    let visible = visible_users(&users, &ui.user_query());
    assert_eq!(visible.len(), 1);
    assert_eq!(users[visible[0]].user, "myli");
}

#[test]
fn pressure_ratio_prefers_capacity_and_stays_bounded() {
    let partition = PartitionOverview {
        name: "gpu_l48".to_string(),
        state: "UP".to_string(),
        total_nodes: 4,
        total_cpus: Some(64),
        total_mem_mb: Some(256_000),
        total_gpus: Some(8),
        node_state_counts: counts(&[("alloc", 2), ("mix", 1)]),
        mine: usage(1, 0, 1, 0, 8, 0, 2, 0),
        others: usage(2, 1, 2, 1, 24, 8, 4, 0),
    };
    let ratio = |metric| {
        partition
            .pressure_fraction(metric)
            .map(|(used, capacity)| used as f64 / capacity as f64)
    };
    assert_eq!(ratio(MetricMode::Nodes), Some(0.75));
    assert_eq!(ratio(MetricMode::Gpus), Some(0.75));
    assert_eq!(partition.used_for_pressure(MetricMode::Nodes), 3);
}

#[test]
fn job_capacity_falls_back_to_observed_workload() {
    let partition = PartitionOverview {
        name: "cpu".to_string(),
        state: "UP".to_string(),
        total_nodes: 0,
        total_cpus: None,
        total_mem_mb: None,
        total_gpus: None,
        node_state_counts: StrMap::new(),
        mine: usage(1, 1, 0, 0, 0, 0, 0, 0),
        others: usage(2, 0, 0, 0, 0, 0, 0, 0),
    };
    assert_eq!(partition.capacity_for(MetricMode::Jobs), Some(4));
    let (used, capacity) = partition.pressure_fraction(MetricMode::Jobs).unwrap();
    assert_eq!(used as f64 / capacity as f64, 0.75);
}

#[test]
fn trend_lines_use_requested_height() {
    let grid = trend_grid(&vec![1, 2, 3, 4], &vec![4, 3, 2, 1], 4, 6);
    assert_eq!(grid.len(), 6);
    assert!(grid.iter().all(|row| row.len() == 4));
}

#[test]
fn trend_grid_marks_each_series_up_to_its_level() {
    let grid = trend_grid(&vec![4, 0], &vec![2, 4], 2, 4);
    assert_eq!(grid[0], vec![TrendMark::Running, TrendMark::Pending]);
    assert_eq!(grid[2], vec![TrendMark::Both, TrendMark::Pending]);
    assert_eq!(grid[3], vec![TrendMark::Both, TrendMark::Pending]);
    let small = trend_grid(&vec![], &vec![], 0, 0);
    assert_eq!(small.len(), 3);
    assert_eq!(small[0], vec![TrendMark::Empty, TrendMark::Empty]);
}

#[test]
fn state_tones_follow_the_state_words() {
    assert_eq!(state_tone("RUNNING"), StateTone::Running);
    assert_eq!(state_tone("completing"), StateTone::Running);
    assert_eq!(state_tone("PENDING"), StateTone::Pending);
    assert_eq!(state_tone("CANCELLED by 1"), StateTone::Danger);
    assert_eq!(state_tone("down*"), StateTone::Danger);
    assert_eq!(state_tone("COMPLETED"), StateTone::Plain);
}

#[test]
fn keys_move_between_tabs_and_back() {
    let mut ui = UiState::new(true, false);
    let f = no_focus();
    assert_eq!(ui.page(), Page::Overview);
    assert_eq!(ui.handle_key(Key::Tab, &f), Effect::Nothing);
    assert_eq!(ui.page(), Page::MyJobs);
    ui.handle_key(Key::BackTab, &f);
    ui.handle_key(Key::BackTab, &f);
    assert_eq!(ui.page(), Page::AllJobs);
    ui.handle_key(Key::Char('b'), &f);
    assert_eq!(ui.page(), Page::Overview);
    ui.handle_key(Key::Char('q'), &f);
    assert!(ui.quit);
}

#[test]
fn start_in_all_jobs_only_when_enabled() {
    assert_eq!(UiState::new(true, true).page(), Page::AllJobs);
    assert_eq!(UiState::new(false, true).page(), Page::Overview);
}

#[test]
fn enter_opens_the_focused_partition_then_a_node() {
    let mut ui = UiState::new(true, false);
    let mut f = no_focus();
    f.rows = 2;
    f.partition = Some("gpu".to_string());
    ui.selected.partition_jobs = 5;
    assert_eq!(ui.handle_key(Key::Enter, &f), Effect::Nothing);
    assert_eq!(ui.page(), Page::PartitionDetail);
    assert_eq!(ui.detail_partition.as_deref(), Some("gpu"));
    assert_eq!(ui.selected.partition_jobs, 0);
    ui.handle_key(Key::Tab, &f);
    assert_eq!(ui.page(), Page::PartitionDetail);

    let mut f = no_focus();
    assert_eq!(ui.handle_key(Key::Char('n'), &f), Effect::Nothing);
    assert_eq!(ui.status_message.as_deref(), Some("No node is available in this partition"));
    f.node = Some("c01".to_string());
    assert_eq!(ui.handle_key(Key::Char('n'), &f), Effect::LoadNode);
    assert_eq!(ui.page(), Page::NodeDetail);
    assert_eq!(ui.node.as_ref().unwrap().partition, "gpu");
    assert_eq!(ui.handle_key(Key::Char('r'), &f), Effect::RefreshWithNode);
    ui.handle_key(Key::Esc, &f);
    assert_eq!(ui.page(), Page::PartitionDetail);
    assert_eq!(ui.handle_key(Key::Char('r'), &f), Effect::Refresh);
}

#[test]
fn selection_moves_within_the_rows() {
    let mut ui = UiState::new(true, false);
    let mut f = no_focus();
    f.rows = 3;
    for _ in 0..5 {
        ui.handle_key(Key::Char('j'), &f);
    }
    assert_eq!(ui.selected.overview, 2);
    ui.handle_key(Key::Up, &f);
    assert_eq!(ui.selected.overview, 1);
    ui.clamp(&TableLengths {
        overview: 1,
        my_jobs: 0,
        users: 0,
        all_jobs: 0,
        partition_jobs: 0,
        partition_nodes: 0,
        history: 0,
        node_jobs: 0,
    });
    assert_eq!(ui.selected.overview, 0);
}

#[test]
fn search_typing_applies_on_enter_and_reverts_on_escape() {
    let mut ui = UiState::new(true, false);
    let f = no_focus();
    ui.handle_key(Key::Char('/'), &f);
    assert_eq!(ui.input_mode, InputMode::Search);
    for c in "gpuu".chars() {
        ui.handle_key(Key::Char(c), &f);
    }
    ui.handle_key(Key::Backspace, &f);
    assert_eq!(ui.active_query(), "gpu");
    ui.handle_key(Key::Char('q'), &f);
    assert!(!ui.quit);
    ui.handle_key(Key::Esc, &f);
    assert_eq!(ui.search_query, "");
    ui.handle_key(Key::Char('/'), &f);
    ui.handle_key(Key::Char('a'), &f);
    ui.handle_key(Key::Enter, &f);
    assert_eq!(ui.search_query, "a");
    assert_eq!(ui.input_mode, InputMode::Normal);
}

#[test]
fn cancel_keys_review_then_confirm() {
    let mut ui = UiState::new(true, false);
    let mut f = no_focus();
    assert_eq!(ui.handle_key(Key::Char('x'), &f), Effect::Nothing);
    assert_eq!(ui.status_message.as_deref(), Some("no active job selected"));
    assert_eq!(ui.handle_key(Key::Char('X'), &f), Effect::Nothing);
    assert_eq!(ui.status_message.as_deref(), Some("bulk cancel is available only on active job pages"));
    ui.handle_key(Key::Tab, &f);
    assert_eq!(ui.handle_key(Key::Char('X'), &f), Effect::Nothing);
    assert_eq!(ui.status_message.as_deref(), Some("no visible jobs to review for cancel"));
    f.rows = 2;
    f.job = Some("7".to_string());
    assert_eq!(ui.handle_key(Key::Char('X'), &f), Effect::ReviewBulkCancel);
    assert_eq!(ui.modal, Some(ModalKind::ConfirmCancel));
    assert_eq!(ui.handle_key(Key::Char('j'), &f), Effect::Nothing);
    assert_eq!(ui.modal, Some(ModalKind::ConfirmCancel));
    assert_eq!(ui.handle_key(Key::Char('y'), &f), Effect::RunCancel);
    assert_eq!(ui.modal, None);
    assert_eq!(ui.handle_key(Key::Char('x'), &f), Effect::ReviewSingleCancel);
    assert_eq!(ui.handle_key(Key::Esc, &f), Effect::Nothing);
    assert_eq!(ui.modal, None);
}

#[test]
fn pin_toggles_and_metric_cycles() {
    let mut ui = UiState::new(true, false);
    let mut f = no_focus();
    f.partition = Some("gpu".to_string());
    ui.handle_key(Key::Char('p'), &f);
    assert_eq!(ui.pinned_partition.as_deref(), Some("gpu"));
    ui.handle_key(Key::Char('p'), &f);
    assert_eq!(ui.pinned_partition, None);
    assert_eq!(ui.metric_mode, MetricMode::Nodes);
    ui.handle_key(Key::Char('g'), &f);
    assert_ne!(ui.metric_mode, MetricMode::Nodes);
    ui.handle_key(Key::Char('m'), &f);
    assert!(ui.show_only_mine);
}

#[test]
fn clicks_on_headers_tabs_and_buttons() {
    let mut ui = UiState::new(true, false);
    let f = no_focus();
    ui.handle_hit(HitTarget::OverviewHeader(OverviewColumn::Nodes), &f);
    assert_eq!(ui.overview_sort.column, OverviewColumn::Nodes);
    assert_eq!(ui.overview_sort.direction, SortDirection::Desc);
    ui.handle_hit(HitTarget::OverviewHeader(OverviewColumn::Nodes), &f);
    assert_eq!(ui.overview_sort.direction, SortDirection::Asc);
    ui.handle_hit(HitTarget::JobHeader(JobColumn::User), &f);
    assert_eq!(ui.job_sort.column, JobColumn::User);
    ui.handle_hit(HitTarget::Tab(Page::Users), &f);
    assert_eq!(ui.page(), Page::Users);
    ui.handle_hit(HitTarget::Row(RowKind::Users, 4), &f);
    assert_eq!(ui.selected.users, 4);
    assert_eq!(ui.handle_hit(HitTarget::Footer(FooterAction::Help), &f), Effect::Nothing);
    assert_eq!(ui.modal, Some(ModalKind::Help));
    ui.handle_hit(HitTarget::Modal(ModalAction::Close), &f);
    assert_eq!(ui.modal, None);
    assert_eq!(ui.footer_action(FooterAction::Refresh, &f), Effect::Refresh);
}

#[test]
fn double_click_on_a_job_row_opens_its_detail() {
    let mut ui = UiState::new(true, false);
    ui.handle_key(Key::Tab, &no_focus());
    let mut f = no_focus();
    f.rows = 1;
    f.job = Some("42".to_string());
    assert_eq!(ui.activate_row(RowKind::MyJobs, &f), Effect::LoadJobDetail);
    assert_eq!(ui.modal, Some(ModalKind::JobDetail));
    assert_eq!(ui.handle_key(Key::Char('i'), &f), Effect::Nothing);
    assert_eq!(ui.modal, None);
}

#[test]
fn job_queries_follow_the_page() {
    let mut ui = UiState::new(true, false);
    ui.show_only_mine = true;
    ui.detail_partition = Some("gpu".to_string());
    let q = ui.job_query(JobTable::Partition, "");
    assert!(q.global_mine_only && !q.mine_only_page);
    assert_eq!(q.page_partition.as_deref(), Some("gpu"));
    let q = ui.job_query(JobTable::MyJobs, "");
    assert!(q.mine_only_page && !q.global_mine_only);
    let q = ui.job_query(JobTable::UserJobs, "bob");
    assert_eq!(q.page_user.as_deref(), Some("bob"));
    assert!(!q.global_mine_only);
    let jobs = vec![sample_job("myli", true), sample_job("bob", true)];
    assert_eq!(collect_jobs(&jobs, &q), vec![1]);
}

#[test]
fn once_summary_prints_partitions_jobs_and_notes() {
    let partition = PartitionOverview {
        name: "gpu_l48".to_string(),
        state: "UP".to_string(),
        total_nodes: 4,
        total_cpus: None,
        total_mem_mb: None,
        total_gpus: None,
        node_state_counts: counts(&[("alloc", 2), ("mix", 1)]),
        mine: usage(1, 0, 0, 0, 0, 0, 0, 0),
        others: usage(2, 1, 0, 0, 0, 0, 0, 0),
    };
    let mut snapshot = snapshot_with(vec![sample_job("myli", true), sample_job("myli", false)], vec![partition]);
    snapshot.notes.push("squeue timed out".to_string());
    assert!(partitions_listable(&snapshot.partitions));
    let lines = once_summary_lines(&snapshot);
    assert_eq!(lines[0], "sqtop summary | host login04 | user myli | sampled 12 ms | degraded false");
    assert_eq!(lines[1], "partitions:");
    assert_eq!(
        lines[2],
        "  gpu_l48       State: UP        Total nodes:   4  Busy nodes:   3  Mine running:   1  Mine pending:   0  Others running:   2  Others pending:   1"
    );
    assert_eq!(lines[3], "my active jobs:");
    assert_eq!(lines[4], "  1         Partition: gpu_l48       State: RUNNING     Runtime: 1:00:00   train");
    assert_eq!(lines[5], "notes:");
    assert_eq!(lines[6], "  - squeue timed out");
    assert_eq!(lines.len(), 7);
}

#[test]
fn listable_checks_refuse_overflowing_counters() {
    let ok = PartitionOverview {
        name: "a".to_string(),
        state: "UP".to_string(),
        total_nodes: 1,
        total_cpus: None,
        total_mem_mb: None,
        total_gpus: None,
        node_state_counts: StrMap::new(),
        mine: usage(u32::MAX, 0, 0, 0, 0, 0, 0, 0),
        others: usage(0, 0, 0, 0, 0, 0, 0, 0),
    };
    assert!(partitions_listable(&vec![ok]));
    let bad = PartitionOverview {
        name: "a".to_string(),
        state: "UP".to_string(),
        total_nodes: 1,
        total_cpus: None,
        total_mem_mb: None,
        total_gpus: None,
        node_state_counts: StrMap::new(),
        mine: usage(u32::MAX, 1, 0, 0, 0, 0, 0, 0),
        others: usage(0, 0, 0, 0, 0, 0, 0, 0),
    };
    assert!(!partitions_listable(&vec![bad]));
    let users = aggregate_users(&vec![sample_job("myli", true)], "myli");
    assert!(users_fit_exec(&users));
    assert!(counts(&[("b", 1), ("a", 2)]).is_wf());
}

#[test]
fn collector_assembles_detail_samples() {
    let collector = Collector::new("myli", "login04".to_string());
    let capture = CommandCapture {
        program: "sacct".to_string(),
        args: Vec::new(),
        status: CommandStatus::Success,
        exit_code: Some(0),
        stdout: "1|x".to_string(),
        stderr: String::new(),
        duration_ms: 3,
    };
    let history = collector.collect_history(HistoryWindow::D3, true, capture.clone());
    assert_eq!(history.window, HistoryWindow::D3);
    assert!(history.all_users);
    assert_eq!(history.capture.stdout, "1|x");
    let detail = collector.collect_job_detail("42", capture.clone(), capture.clone());
    assert_eq!(detail.job_id, "42");
    let node = collector.collect_node_detail("c01", capture.clone(), capture);
    assert_eq!(node.node_name, "c01");
}

fn empty_detail() -> sqtop::model::types::JobDetail {
    sqtop::model::types::JobDetail {
        job_id: "7".to_string(),
        name: Some("train".to_string()),
        user: None,
        account: None,
        partition: None,
        state: None,
        reason: None,
        exit_code: None,
        nodes: Some(2),
        n_tasks: None,
        cpus: None,
        memory_mb: Some(2048),
        requested_gpus: None,
        gres: None,
        req_tres: None,
        alloc_tres: None,
        runtime_raw: None,
        time_limit_raw: None,
        submit_time: None,
        start_time: None,
        end_time: None,
        node_list: None,
        work_dir: None,
        command: None,
        stdout_path: None,
        stderr_path: None,
        source_notes: Vec::new(),
        active: false,
        is_mine: false,
    }
}

#[test]
fn job_detail_sections_fill_missing_values() {
    let mut detail = empty_detail();
    let sections = sqtop::detail::job_detail_sections(&detail);
    let titles: Vec<&str> = sections.iter().map(|s| s.title.as_str()).collect();
    assert_eq!(titles, vec!["Basic", "Resources", "Scheduling", "Placement / Reason", "Paths", "Extra"]);
    assert_eq!(sections[0].fields[0], ("Job ID".to_string(), "7".to_string()));
    assert_eq!(sections[0].fields[1], ("Name".to_string(), "train".to_string()));
    assert_eq!(sections[0].fields[2], ("User".to_string(), "N/A".to_string()));
    assert_eq!(sections[1].fields[0], ("Nodes".to_string(), "2".to_string()));
    assert_eq!(sections[1].fields[3], ("Memory".to_string(), "2.0G".to_string()));
    assert_eq!(sections[5].fields[1], ("Notes".to_string(), "none".to_string()));
    detail.source_notes = vec!["a".to_string(), "b".to_string()];
    let sections = sqtop::detail::job_detail_sections(&detail);
    assert_eq!(sections[5].fields[1].1, "a\nb");
}

#[test]
fn cancel_review_and_result_fields_count_jobs() {
    let mine = sample_job("myli", true);
    let other = sample_job("other", true);
    let preview = sqtop::state::bulk_cancel_preview(&vec![&mine, &other], "myli").unwrap();
    let (summary, action) = sqtop::detail::cancel_review_fields(&preview);
    assert_eq!(summary[0].1, "Cancel 2 visible jobs");
    assert_eq!(summary[1].1, "visible filtered jobs");
    assert_eq!(summary[2].1, "2");
    assert_eq!(summary[3].1, "1");
    assert_eq!(summary[4].1, "1");
    assert_eq!(action[0].1, "scancel for every eligible job in this preview");
    let report = sqtop::app::CancelReport {
        scope: sqtop::app::CancelScope::Single,
        results: vec![
            sqtop::app::CancelOutcome { job_id: "1".to_string(), success: true, message: "ok".to_string() },
            sqtop::app::CancelOutcome { job_id: "2".to_string(), success: false, message: "skipped: not yours".to_string() },
            sqtop::app::CancelOutcome { job_id: "3".to_string(), success: false, message: "scancel failed".to_string() },
        ],
    };
    let fields = sqtop::detail::cancel_result_fields(&report);
    let values: Vec<&str> = fields.iter().map(|f| f.1.as_str()).collect();
    assert_eq!(values, vec!["single job", "3", "1", "1", "1"]);
}

#[test]
fn pressure_bands_follow_percent_thresholds() {
    assert_eq!(pressure_band(85, 100), Band::Critical);
    assert_eq!(pressure_band(84, 100), Band::High);
    assert_eq!(pressure_band(60, 100), Band::High);
    assert_eq!(pressure_band(59, 100), Band::Normal);
    assert_eq!(pressure_band(1, 0), Band::Critical);
    assert_eq!(pressure_band(0, 0), Band::Normal);
}

#[test]
fn stacked_widths_split_the_bar() {
    assert_eq!(stacked_widths(2, 3, Some(10), 10), (2, 3, 5));
    assert_eq!(stacked_widths(5, 5, None, 10), (5, 5, 0));
    assert_eq!(stacked_widths(0, 0, None, 8), (0, 0, 8));
    let (m, o, rest) = stacked_widths(9, 9, Some(10), 10);
    assert_eq!(m + o + rest, 10);
    assert_eq!(m, 9);
}

#[test]
fn job_tones_depend_on_state_and_owner() {
    let mut job = sample_job("myli", true);
    assert_eq!(job_tone(&job), JobTone::MineRunning);
    job.is_mine = false;
    assert_eq!(job_tone(&job), JobTone::Running);
    job.state = "CONFIGURING".to_string();
    assert_eq!(job_tone(&job), JobTone::Pending);
    job.state = "TIMEOUT".to_string();
    assert_eq!(job_tone(&job), JobTone::Failed);
    job.state = "COMPLETED".to_string();
    assert_eq!(job_tone(&job), JobTone::Other);
    job.is_mine = true;
    assert_eq!(job_tone(&job), JobTone::Mine);
}

#[test]
fn partition_tones_flag_down_drain_and_busy() {
    let mut p = PartitionOverview {
        name: "gpu".to_string(),
        state: "up".to_string(),
        total_nodes: 10,
        total_cpus: None,
        total_mem_mb: None,
        total_gpus: None,
        node_state_counts: counts(&[("idle", 10)]),
        mine: usage(0, 0, 0, 0, 0, 0, 0, 0),
        others: usage(0, 0, 0, 0, 0, 0, 0, 0),
    };
    assert_eq!(partition_tone(&p), StateTone::Plain);
    p.state = "down*".to_string();
    assert_eq!(partition_tone(&p), StateTone::Danger);
    p.state = "UP".to_string();
    p.node_state_counts = counts(&[("drain", 1), ("idle", 9)]);
    assert_eq!(partition_tone(&p), StateTone::Pending);
    p.node_state_counts = counts(&[("alloc", 8), ("idle", 2)]);
    assert_eq!(partition_tone(&p), StateTone::Pending);
    p.node_state_counts = counts(&[("alloc", 7), ("idle", 3)]);
    assert_eq!(partition_tone(&p), StateTone::Plain);
}

fn sample_partition() -> PartitionOverview {
    PartitionOverview {
        name: "gpu_l48".to_string(),
        state: "UP".to_string(),
        total_nodes: 4,
        total_cpus: None,
        total_mem_mb: None,
        total_gpus: None,
        node_state_counts: counts(&[("alloc", 2), ("mix", 1)]),
        mine: usage(1, 0, 0, 0, 0, 0, 0, 0),
        others: usage(2, 1, 0, 0, 0, 0, 0, 0),
    }
}

fn assert_node_tones(lines: &[(sqtop::summary::NodeStateTone, String, String)]) {
    let tones: Vec<sqtop::summary::NodeStateTone> = lines.iter().map(|l| l.0).collect();
    assert_eq!(
        tones,
        vec![
            sqtop::summary::NodeStateTone::Idle,
            sqtop::summary::NodeStateTone::Busy,
            sqtop::summary::NodeStateTone::Busy,
            sqtop::summary::NodeStateTone::Draining,
            sqtop::summary::NodeStateTone::Down,
        ]
    );
}

fn labels(model: &sqtop::tables::TableModel) -> Vec<String> {
    model.columns.iter().map(|c| c.label.clone()).collect()
}

#[test]
fn job_table_splits_footprints_and_sizes_columns() {
    let job = sample_job("myli", true);
    let model = sqtop::tables::job_table(&vec![&job], true, 200, JobColumn::JobId);
    assert_eq!(
        labels(&model),
        vec![
            "Job ID", "User", "Partition", "State", "Runtime", "Time limit", "Nodes", "CPUs",
            "Resource footprint", "Resource footprint →", "Placement or reason", "Name"
        ]
    );
    let widths: Vec<u16> = model.columns.iter().map(|c| c.width).collect();
    assert_eq!(widths, vec![8, 10, 11, 11, 9, 10, 4, 6, 32, 32, 24, 36]);
    assert!(model.columns[0].active);
    assert!(!model.columns[1].active);
    assert_eq!(model.columns[8].hit, None);
    assert_eq!(model.columns[11].hit, Some(HitTarget::JobHeader(JobColumn::Name)));
    assert_eq!(
        model.rows[0],
        vec![
            "1", "myli", "gpu_l48", "RUNNING", "1:00:00", "2:00:00", "1", "8",
            "Node [█████] 1  CPU  [█████] 8  ", "GPU  [█████] 1", "c56b01n01", "train"
        ]
    );
    let narrow = sqtop::tables::job_table(&vec![&job], false, 30, JobColumn::Name);
    assert_eq!(narrow.columns[0].label, "Job ID");
    assert_eq!(narrow.columns[1].label, "Partition");
    assert_eq!(narrow.columns[7].width, 24);
    assert!(narrow.columns.last().unwrap().active);
}

#[test]
fn node_job_table_shows_why_a_pending_job_waits() {
    let mut job = sample_job("bob", true);
    job.state = "PENDING".to_string();
    job.running = false;
    job.pending = true;
    job.location_or_reason = "(Priority)".to_string();
    let model = sqtop::tables::layout_job_table(&vec![&job], sqtop::tables::JobLayout::Node, 200, JobColumn::State);
    assert_eq!(&labels(&model)[..7], &["Job ID", "User", "State", "Runtime", "Partition", "Where", "Why"]);
    let widths: Vec<u16> = model.columns.iter().take(7).map(|c| c.width).collect();
    assert_eq!(widths, vec![8, 10, 11, 10, 11, 18, 14]);
    assert!(model.columns[2].active);
    assert_eq!(model.columns[5].hit, None);
    assert_eq!(&model.rows[0][..7], &["1", "bob", "PENDING", "1:00:00", "gpu_l48", "(Priority)", "(Priority)"]);
    let compact = sqtop::tables::layout_job_table(&vec![&job], sqtop::tables::JobLayout::Compact, 200, JobColumn::State);
    assert_eq!(&labels(&compact)[..4], &["Job ID", "Partition", "State", "Runtime"]);
    assert!(compact.columns.iter().all(|c| c.hit.is_none() && !c.active));
    let partition = sqtop::tables::layout_job_table(&vec![&job], sqtop::tables::JobLayout::Partition, 200, JobColumn::WhereWhy);
    assert_eq!(partition.columns[4].label, "Where / Why");
    assert_eq!(partition.columns[4].width, 24);
    assert!(partition.columns[4].active);
}

#[test]
fn user_table_counts_jobs_and_lists_partitions() {
    let users = aggregate_users(&vec![sample_job("myli", true)], "myli");
    assert!(users_listable(&users));
    let model = sqtop::tables::user_table(&users, &vec![0], 200, sqtop::app::UserColumn::TotalJobs);
    assert_eq!(&labels(&model)[..4], &["User", "Running jobs", "Pending jobs", "Total jobs"]);
    assert!(model.columns[3].active);
    assert_eq!(&model.rows[0][..4], &["myli", "1", "0", "1"]);
    assert_eq!(model.rows[0][4], "Node [█████] 1  CPU  [█████] 8  ");
    assert_eq!(model.rows[0].last().unwrap(), &users[0].top_partitions_summary(3));
    let empty = sqtop::tables::user_table(&users, &Vec::new(), 200, sqtop::app::UserColumn::User);
    assert!(empty.rows.is_empty());
}

#[test]
fn overview_table_draws_pressure_and_metric_bars() {
    let parts = vec![sample_partition()];
    assert!(partitions_listable(&parts));
    let model = sqtop::tables::overview_table(&parts, &vec![0], MetricMode::Jobs, 200, OverviewColumn::Pressure);
    assert_eq!(
        &labels(&model)[..9],
        &[
            "Partition", "State", "Nodes", "Pressure", "Mine Running", "Mine Pending", "Others Running",
            "Others Pending", "Total Jobs"
        ]
    );
    let widths: Vec<u16> = model.columns.iter().take(9).map(|c| c.width).collect();
    assert_eq!(widths, vec![18, 8, 7, 23, 18, 18, 18, 18, 24]);
    assert!(model.columns[3].active);
    assert_eq!(model.columns[1].hit, None);
    let row = &model.rows[0];
    assert_eq!(&row[..3], &["gpu_l48", "UP", "4"]);
    assert_eq!(row[3], "[████████████····]  75%");
    assert_eq!(row[4], "[████·········] 1");
    assert_eq!(row[5], "[·············] 0");
    assert_eq!(row[6], "[█████████····] 2");
    assert_eq!(row[7], "[█████████████] 1");
    assert_eq!(row[8], "Running: 3  Pending: 1");
}

#[test]
fn node_table_sizes_names_states_and_capacity() {
    let nodes = vec![NodeRecord {
        partition: "gpu".to_string(),
        state: "idle".to_string(),
        node_name: "c56b01n01".to_string(),
        cpus: Some(64),
        memory_mb: None,
        gpus: None,
        gres: None,
    }];
    let model = sqtop::tables::node_table(&nodes, &vec![0], 200);
    assert_eq!(labels(&model), vec!["Node", "State", "Capacity"]);
    let widths: Vec<u16> = model.columns.iter().map(|c| c.width).collect();
    assert_eq!(widths, vec![10, 8, 24]);
    assert_eq!(model.rows[0], vec!["c56b01n01", "idle", "CPUs 64  GPUs N/A"]);
}

fn line_text(line: &[sqtop::layout::Piece]) -> String {
    line.iter().map(|p| p.text.as_str()).collect()
}

#[test]
fn job_detail_panel_pairs_boxes_when_wide() {
    let detail = empty_detail();
    let wide = sqtop::panel::job_detail_panel(&detail, 100);
    assert_eq!(line_text(&wide[0]).chars().count(), 100);
    assert!(line_text(&wide[0]).contains("Basic"));
    assert!(line_text(&wide[0]).contains("Resources"));
    assert!(wide.iter().any(|l| line_text(l).contains("Close")));
    let narrow = sqtop::panel::job_detail_panel(&detail, 60);
    assert!(narrow.iter().all(|l| l.is_empty() || line_text(l).chars().count() == 60));
    assert!(line_text(&narrow[0]).contains("Basic"));
    assert!(!line_text(&narrow[0]).contains("Resources"));
    let error = sqtop::panel::job_detail_error_panel(&None, 40);
    assert!(line_text(&error[0]).contains("Error"));
    assert!(error.iter().any(|l| line_text(l).contains("Unknown error")));
}

#[test]
fn cancel_panels_group_jobs_and_outcomes() {
    let mine = sample_job("myli", true);
    let other = sample_job("other", true);
    let preview = sqtop::state::bulk_cancel_preview(&vec![&mine, &other], "myli").unwrap();
    let blocks = sqtop::panel::cancel_review_panel(&preview, 120);
    let accents: Vec<Accent> = blocks.iter().map(|b| b.accent).collect();
    assert_eq!(
        accents,
        vec![Accent::Cancel, Accent::Plain, Accent::Cancel, Accent::Plain, Accent::Ineligible, Accent::Plain, Accent::Cancel]
    );
    assert!(line_text(&blocks[2].lines[0]).contains("Eligible Jobs"));
    assert!(blocks[2].lines.iter().any(|l| line_text(l).contains("Eligible: yes")));
    assert!(blocks[4].lines.iter().any(|l| line_text(l).contains("Skip reason:")));
    let only_mine = sqtop::state::bulk_cancel_preview(&vec![&mine], "myli").unwrap();
    assert_eq!(sqtop::panel::cancel_review_panel(&only_mine, 80).len(), 5);
    let report = sqtop::app::CancelReport {
        scope: sqtop::app::CancelScope::Visible,
        results: vec![
            sqtop::app::CancelOutcome { job_id: "1".to_string(), success: true, message: "ok".to_string() },
            sqtop::app::CancelOutcome { job_id: "2".to_string(), success: false, message: "skipped: not yours".to_string() },
            sqtop::app::CancelOutcome { job_id: "3".to_string(), success: false, message: "scancel failed".to_string() },
        ],
    };
    let blocks = sqtop::panel::cancel_result_panel(&report, 80);
    let accents: Vec<Accent> = blocks.iter().map(|b| b.accent).collect();
    assert_eq!(
        accents,
        vec![Accent::Summary, Accent::Plain, Accent::Succeeded, Accent::Plain, Accent::Failed, Accent::Plain, Accent::Skipped]
    );
    assert_eq!(sqtop::panel::result_accent(&report), Accent::Failed);
    let clean = sqtop::app::CancelReport { scope: sqtop::app::CancelScope::Single, results: vec![report.results[0].clone()] };
    assert_eq!(sqtop::panel::result_accent(&clean), Accent::Succeeded);
    assert_eq!(sqtop::panel::cancel_result_panel(&clean, 80).len(), 4);
}

#[test]
fn partition_usage_splits_bars_by_owner() {
    let p = sample_partition();
    let u = sqtop::summary::partition_usage(&p, MetricMode::Jobs);
    assert_eq!(u.heading, "State: UP  Total nodes: 4");
    assert_eq!(u.pressure, format!("[{}{}]  75%", "█".repeat(20), "·".repeat(6)));
    assert_eq!((u.running_owners.first, u.running_owners.second, u.running_owners.blank), (7, 13, 6));
    assert_eq!(u.running_owners.caption, "  Mine: 1  Others: 2");
    assert_eq!((u.pending_owners.first, u.pending_owners.second, u.pending_owners.blank), (0, 13, 13));
    assert_eq!((u.running_pending.first, u.running_pending.second, u.running_pending.blank), (20, 6, 0));
    assert_eq!(u.running_pending.caption, "  Running: 3  Pending: 1");
    assert_eq!(u.capacity, "CPU in use: 0 / N/A  GPU in use: 0 / N/A  Memory capacity: N/A");
    let lines = sqtop::summary::node_state_lines(&p);
    assert_node_tones(&lines);
    assert_eq!(lines[0].1, "idle  ");
    assert_eq!(lines[0].2, "[············]   0%  Nodes: 0");
    assert_eq!(lines[1].1, "mix   ");
    assert_eq!(lines[1].2, "[███·········]  25%  Nodes: 1");
    assert_eq!(lines[2].1, "alloc ");
    assert_eq!(lines[2].2, "[██████······]  50%  Nodes: 2");
    assert_eq!(lines[4].1, "down  ");
}

#[test]
fn hot_partitions_and_active_counts() {
    let parts = vec![sample_partition()];
    let lines = sqtop::summary::hot_partition_lines(&parts, &vec![0], MetricMode::Jobs);
    assert_eq!(lines[0].0, "gpu_l48   ");
    assert_eq!(
        lines[0].1,
        "  Pressure [████████··]  75%  Running: Mine 1 / Others 2  Pending: Mine 0 / Others 1  Total active jobs: 4"
    );
    let none = sqtop::summary::hot_partition_lines(&parts, &Vec::new(), MetricMode::Jobs);
    assert_eq!(none, vec![(String::new(), "No partitions match the current filters".to_string())]);
    let jobs = vec![sample_job("myli", true), sample_job("myli", false), sample_job("bob", true)];
    assert_eq!(sqtop::summary::active_counts(&jobs), (1, 2));
}

#[test]
fn node_summary_and_filter_lines() {
    let lines = sqtop::summary::node_summary_lines("c1", "gpu", false, &None, &None, 3);
    assert_eq!(
        lines,
        vec![
            "c1 Partition: gpu  State: N/A",
            "CPU allocation: N/A / N/A  GPU allocation: N/A / N/A  Memory allocation: N/A / N/A",
            "Node reason: No node-level reason reported",
            "Loaded at: pending  Node jobs visible after filters: 3",
        ]
    );
    let loading = sqtop::summary::node_summary_lines("c1", "gpu", true, &None, &None, 0);
    assert_eq!(loading, vec!["Loading node data for c1..."]);
    let q = sqtop::listing::NodeJobQuery {
        mine_only: false,
        user_filter: "All users".to_string(),
        state_filter: "RUNNING".to_string(),
        where_filter: String::new(),
        why_filter: "gpu".to_string(),
        query: String::new(),
        sort: sqtop::app::JobSortState { column: JobColumn::JobId, direction: SortDirection::Desc },
    };
    assert_eq!(
        sqtop::summary::node_filter_lines(&q),
        vec!["User filter: All users  State filter: RUNNING", "Where filter: All placements  Why filter: gpu"]
    );
}

#[test]
fn row_hits_stop_at_the_bottom_border() {
    let hits = sqtop::hits::table_row_hits(Area { x: 0, y: 5, width: 20, height: 6 }, 10, RowKind::MyJobs);
    assert_eq!(
        hits,
        vec![
            (Area { x: 1, y: 7, width: 18, height: 1 }, HitTarget::Row(RowKind::MyJobs, 0)),
            (Area { x: 1, y: 8, width: 18, height: 1 }, HitTarget::Row(RowKind::MyJobs, 1)),
            (Area { x: 1, y: 9, width: 18, height: 1 }, HitTarget::Row(RowKind::MyJobs, 2)),
        ]
    );
    assert!(sqtop::hits::table_row_hits(Area { x: 0, y: 0, width: 5, height: 2 }, 4, RowKind::Users).is_empty());
}

#[test]
fn footer_buttons_advance_by_their_byte_length() {
    let buttons = sqtop::hits::footer_buttons(0, 20, Page::MyJobs);
    assert_eq!(buttons[0].0, "[← Overview] ");
    assert_eq!(buttons[0].1.width, 15);
    assert_eq!(buttons[0].2, FooterAction::BackOverview);
    assert_eq!(buttons[1].1.x, 15);
    assert_eq!(buttons[1].1.y, 20);
    assert_eq!(buttons.len(), sqtop::state::footer_actions(Page::MyJobs).len());
    assert_eq!(
        sqtop::hits::footer_hint(Page::Users, Some(ModalKind::Help)),
        "Help: j/k scroll  Space/b page  g/G top/bottom  q or Esc close"
    );
    let hint = sqtop::hits::footer_hint(Page::Users, None);
    assert!(hint.starts_with("Users: q Quit"));
    assert!(hint.ends_with("Mouse: tabs, rows, footer buttons, and modal buttons"));
}

#[test]
fn sort_and_filter_labels_follow_the_page() {
    let mut ui = UiState::new(true, false);
    assert_eq!(ui.page(), Page::Overview);
    assert_eq!(ui.sort_label(), ui.overview_sort.label());
    assert_eq!(ui.filter_label("a", "b"), ui.job_filter.label());
    ui.main_index = 2;
    assert_eq!(ui.page(), Page::Users);
    ui.show_only_mine = true;
    assert_eq!(ui.filter_label("a", "b"), "Showing only the current user");
    assert_eq!(ui.sort_label(), ui.user_sort.label());
}

#[test]
fn focus_follows_the_page_and_its_selection() {
    let mut ui = UiState::new(true, false);
    let partitions = vec![sample_partition()];
    let jobs = vec![sample_job("myli", true)];
    let mut lists = sqtop::view::Lists::default();
    lists.partitions = vec![0];
    lists.my_jobs = vec![0];
    let focus = sqtop::view::focus_of(&ui, &lists, &partitions, &Vec::new(), &jobs, &Vec::new());
    assert_eq!(focus.rows, 1);
    assert_eq!(focus.partition, Some("gpu_l48".to_string()));
    assert_eq!(focus.job, None);
    ui.main_index = 1;
    assert_eq!(ui.page(), Page::MyJobs);
    let focus = sqtop::view::focus_of(&ui, &lists, &partitions, &Vec::new(), &jobs, &Vec::new());
    assert_eq!(focus.job, Some("1".to_string()));
    assert_eq!(focus.partition, Some("gpu_l48".to_string()));
    let no_jobs: Vec<JobRecord> = Vec::new();
    let listed = sqtop::view::page_jobs(&ui, &lists, &jobs, &no_jobs);
    assert_eq!(listed.len(), 1);
    assert_eq!(listed[0].job_id, "1");
    lists.my_jobs = vec![5];
    assert!(sqtop::view::page_jobs(&ui, &lists, &jobs, &no_jobs).is_empty());
    assert!(sqtop::view::focused_job(&ui, &lists, &jobs, &no_jobs).is_none());
}

#[test]
fn partition_trends_record_running_and_pending_jobs() {
    let points = sqtop::view::partition_trend_points(&vec![sample_partition()]);
    assert_eq!(points, vec![("gpu_l48".to_string(), 3, 1)]);
}

#[test]
fn selected_user_panel_sums_totals() {
    let users = aggregate_users(&vec![sample_job("myli", true)], "myli");
    let lines = sqtop::summary::selected_user_lines(&users, &vec![0], 0);
    assert_eq!(lines[0].0, "Selected user: myli");
    assert_eq!(lines[0].1, "  Running: 1  Pending: 0  CPUs: 8  GPUs: 1");
    assert_eq!(lines[1].0, format!("Main partitions: {}", users[0].top_partitions_summary(4)));
    let none = sqtop::summary::selected_user_lines(&users, &vec![0], 3);
    assert_eq!(none, vec![(String::new(), "No active user matches the current filters".to_string())]);
}

#[test]
fn status_note_prefers_the_message_then_warnings() {
    let quiet = Some(snapshot_with(Vec::new(), Vec::new()));
    assert_eq!(sqtop::summary::status_note(&None, &quiet), "No active warnings");
    let mut noisy = snapshot_with(Vec::new(), Vec::new());
    noisy.notes = vec!["a".to_string(), "b".to_string()];
    let noisy = Some(noisy);
    assert_eq!(sqtop::summary::status_note(&None, &noisy), "Warnings: a | b");
    assert_eq!(sqtop::summary::status_note(&Some("done".to_string()), &noisy), "done");
    assert_eq!(sqtop::summary::status_note(&None, &None), "Collecting scheduler data");
}

#[test]
fn page_headers_count_rows_and_name_the_first_column() {
    let (counts, details) = sqtop::summary::queue_header(3, "active", MetricMode::Gpus, "Job ID ↓", "myli", 0);
    assert_eq!(counts, "  Visible jobs: 3  State filter: active");
    assert_eq!(details, "Metric: GPU  Sort: Job ID ↓  Current user: myli  Horizontal view: column 1 (← →)");
    let (counts, details) = sqtop::summary::users_header(2, "Showing all users with active jobs", "User ↑", "", 4);
    assert_eq!(counts, "  Visible users: 2  Filter: Showing all users with active jobs");
    assert_eq!(details, "Sort: User ↑  Search query: All users  Horizontal view: column 5 (← →)");
}

#[test]
fn node_state_summary_keeps_nonstandard_states() {
    let mut p = sample_partition();
    p.node_state_counts = counts(&[("resv", 2), ("idle", 1), ("maint", 1)]);
    assert_eq!(p.node_state_summary(), "idle:1 maint:1 resv:2");
    p.node_state_counts = counts(&[("resv", 2)]);
    assert_eq!(p.node_state_summary(), "resv:2");
    p.node_state_counts = StrMap::new();
    assert_eq!(p.node_state_summary(), "n/a");
}

#[test]
fn node_state_lines_list_other_states_after_the_usual_ones() {
    let mut p = sample_partition();
    p.node_state_counts = counts(&[("resv", 2), ("idle", 1), ("alloc", 1)]);
    let lines = sqtop::summary::node_state_lines(&p);
    assert_eq!(lines.len(), 6);
    assert_eq!(lines[5].0, sqtop::summary::NodeStateTone::Other);
    assert_eq!(lines[5].1, "resv  ");
    assert_eq!(lines[5].2, "[██████······]  50%  Nodes: 2");
    assert_eq!(lines[0].2, "[███·········]  25%  Nodes: 1");
}

#[test]
fn partition_search_finds_nonstandard_states() {
    let mut p = sample_partition();
    p.node_state_counts = counts(&[("resv", 2)]);
    let q = sqtop::listing::PartitionQuery {
        pinned_partition: None,
        query: "RESV".to_string(),
        sort: sqtop::app::OverviewSortState { column: OverviewColumn::Partition, direction: SortDirection::Asc },
        metric: MetricMode::Jobs,
    };
    assert_eq!(sqtop::listing::visible_partitions(&vec![p], &q), vec![0]);
}
