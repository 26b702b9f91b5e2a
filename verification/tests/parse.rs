use sqtop::model::parse::{
    parse_history, parse_jobs, parse_nodes, parse_partition_specs, parse_scontrol_node,
    parse_slurm_duration, parse_tres_value,
};

#[test]
fn parses_squeue_line_with_unit_separator() {
    let input = "123\x1fmyli\x1fdemo\x1fgpu_l48\x1ftrain\x1fRUNNING\x1f1:02:03\x1f2-00:00:00\x1f1\x1f8\x1fN/A\x1f2026-04-12T12:00:00\x1f42\x1fc57b01n01";
    let (jobs, notes) = parse_jobs(input, "myli");
    assert!(notes.is_empty());
    assert_eq!(jobs.len(), 1);
    let job = &jobs[0];
    assert_eq!(job.job_id, "123");
    assert!(job.is_mine);
    assert_eq!(job.runtime_secs, Some(3723));
    assert_eq!(job.time_limit_secs, Some(172800));
    assert_eq!(job.cpus, Some(8));
}

#[test]
fn parses_sinfo_node_lines_and_gpu_counts() {
    let input = "gpu_l48\x1falloc\x1fc56b01n01\x1f52\x1f515200\x1fgpu:l40:8";
    let (nodes, notes) = parse_nodes(input);
    assert!(notes.is_empty());
    assert_eq!(nodes.len(), 1);
    assert_eq!(nodes[0].partition, "gpu_l48");
    assert_eq!(nodes[0].state, "alloc");
    assert_eq!(nodes[0].gpus, Some(8));
}

#[test]
fn parses_partition_tres() {
    let input = "PartitionName=gpu_l48\nState=UP TotalCPUs=104 TotalNodes=2 TRES=cpu=104,mem=1030400M,node=2,billing=104,gres/gpu=16\n";
    let (specs, notes) = parse_partition_specs(input);
    assert!(notes.is_empty());
    assert_eq!(specs.len(), 1);
    assert_eq!(specs[0].name, "gpu_l48");
    assert_eq!(specs[0].total_gpus, Some(16));
}

#[test]
fn parses_slurm_durations() {
    assert_eq!(parse_slurm_duration("1:02:03"), Some(3723));
    assert_eq!(parse_slurm_duration("2-00:00:00"), Some(172800));
    assert_eq!(parse_slurm_duration("0:00"), Some(0));
    assert_eq!(parse_slurm_duration("UNLIMITED"), None);
}

#[test]
fn parses_sacct_history_lines() {
    let input = "687508|2FBXO11|myli|gpu_l48|RUNNING|0:0|1-20:43:19|2026-04-10T20:23:52|Unknown|billing=20,cpu=20,gres/gpu=2,mem=40000M,node=1|billing=20,cpu=20,gres/gpu=2,mem=40000M,node=1";
    let (rows, notes) = parse_history(input, "myli");
    assert!(notes.is_empty());
    assert_eq!(rows.len(), 1);
    assert_eq!(rows[0].alloc_gpus, Some(2));
    assert_eq!(rows[0].alloc_cpus, Some(20));
    assert!(rows[0].is_mine);
}

#[test]
fn parses_tres_values_with_units() {
    assert_eq!(parse_tres_value("40000M"), Some(40000));
    assert_eq!(parse_tres_value("62.50G"), Some(64000));
    assert_eq!(parse_tres_value("1T"), Some(1024 * 1024));
}

#[test]
fn degrades_when_history_tres_fields_are_missing() {
    let input = "687508|2FBXO11|myli|gpu_l48|COMPLETED|0:0|00:10:00|2026-04-10T20:23:52|2026-04-10T20:33:52||";
    let (rows, notes) = parse_history(input, "myli");
    assert!(notes.is_empty());
    assert_eq!(rows.len(), 1);
    assert_eq!(rows[0].alloc_tres, None);
    assert_eq!(rows[0].req_tres, None);
    assert_eq!(rows[0].alloc_cpus, None);
    assert_eq!(rows[0].alloc_gpus, None);
    assert_eq!(rows[0].resources_summary(), "n/a");
}

#[test]
fn parses_scontrol_node_summary() {
    let input = "NodeName=c56b01n01 CPUAlloc=52 CPUTot=52 Gres=gpu:l40:8 State=ALLOCATED Partitions=gpu_l48 RealMemory=515200 AllocMem=104000 CfgTRES=cpu=52,mem=515200M,gres/gpu=8 AllocTRES=cpu=52,mem=104000M,gres/gpu=8";
    let (detail, notes) = parse_scontrol_node(input);
    assert!(notes.is_empty());
    let detail = detail.expect("node detail");
    assert_eq!(detail.node_name, "c56b01n01");
    assert_eq!(detail.partition.as_deref(), Some("gpu_l48"));
    assert_eq!(detail.cpu_alloc, Some(52));
    assert_eq!(detail.gpu_total, Some(8));
    assert_eq!(detail.gpu_alloc, Some(8));
}
