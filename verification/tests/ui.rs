use sqtop::model::types::JobRecord;
use sqtop::ui::{
    max_segments, resource_footprint_text, scaled_bar_width, stable_partition_index,
    visible_column_indices, JobResourceScale, NAME_SEGMENT_WIDTH, RESOURCE_SEGMENT_WIDTH,
};

fn sample_job(name: &str) -> JobRecord {
    JobRecord {
        job_id: "1234".to_string(),
        user: "alice".to_string(),
        account: None,
        partition_raw: "gpu_l48".to_string(),
        partitions: vec!["gpu_l48".to_string()],
        name: name.to_string(),
        state: "RUNNING".to_string(),
        runtime_raw: "01:00".to_string(),
        time_limit_raw: "02:00".to_string(),
        runtime_secs: Some(3600),
        time_limit_secs: Some(7200),
        nodes: 2,
        cpus: Some(48),
        memory_mb: Some(131072),
        requested_gpus: Some(4),
        gres: None,
        req_tres: None,
        alloc_tres: None,
        location_or_reason: "node001".to_string(),
        submit_time: None,
        priority: None,
        is_mine: true,
        active: true,
        running: true,
        pending: false,
    }
}

#[test]
fn bar_width_scales_safely() {
    assert_eq!(scaled_bar_width(0, 10, 20), 0);
    assert_eq!(scaled_bar_width(5, 10, 20), 10);
    assert_eq!(scaled_bar_width(15, 10, 20), 20);
}

#[test]
fn visible_columns_can_scroll_to_rightmost_name_column() {
    let widths = vec![8, 10, 12, 16, 22, 80];
    let (indices, hidden_left, hidden_right) = visible_column_indices(&widths, 40, 5);
    assert_eq!(indices, vec![5]);
    assert_eq!(hidden_left, 5);
    assert_eq!(hidden_right, 0);
}

#[test]
fn resource_footprint_shows_only_node_cpu_gpu() {
    let job = sample_job("very-long-training-job-name-for-footprint-check");
    let scale = JobResourceScale::from_jobs(&vec![&job]);
    let text = resource_footprint_text(&job, &scale);
    assert!(text.contains("Node"));
    assert!(text.contains("CPU"));
    assert!(text.contains("GPU"));
    assert!(!text.contains("Mem"));
    assert!(!text.contains("TRES"));
}

#[test]
fn long_name_and_resource_text_expand_into_multiple_segments() {
    let job = sample_job(
        "extremely-long-training-job-name-that-should-span-multiple-visible-columns",
    );
    let scale = JobResourceScale::from_jobs(&vec![&job]);
    let footprint = resource_footprint_text(&job, &scale);
    assert!(max_segments(&vec![job.name.clone()], NAME_SEGMENT_WIDTH) > 1);
    assert!(max_segments(&vec![footprint], RESOURCE_SEGMENT_WIDTH) > 1);
}

#[test]
fn partition_color_mapping_is_stable() {
    let first = stable_partition_index("gpu_l48", 10);
    let second = stable_partition_index("gpu_l48", 10);
    let other = stable_partition_index("cpu_long", 10);

    assert_eq!(first, second);
    assert_ne!(first, other);
}
