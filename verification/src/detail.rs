//! The labelled fields of the dialogs: a job's detail, the review of a
//! cancel, and its result.
use vstd::prelude::*;

use crate::app::{allowed_ids, CancelOutcome, CancelPreview, CancelReport, CancelScope};
use crate::model::types::{clone_string, format_mem_mb, join, join_strings, mem_text, field_views, string_views, JobDetail,
    JobDetailView};
use crate::text::{chars_of, dec, push_dec, string_of, views};
use crate::ui::{is_skipped_message, skipped_message};

verus! {

/// A titled group of label and value pairs.
#[derive(Debug, Clone)]
pub struct Section {
    pub title: String,
    pub fields: Vec<(String, String)>,
}

pub open spec fn section_views(v: Seq<Section>) -> Seq<(Seq<char>, Seq<(Seq<char>, Seq<char>)>)> {
    v.map_values(|s: Section| (s.title@, field_views(s.fields@)))
}

pub open spec fn or_na(o: Option<Seq<char>>) -> Seq<char> {
    match o {
        Some(s) => s,
        None => "N/A"@,
    }
}

pub open spec fn count_or_na(o: Option<u32>) -> Seq<char> {
    match o {
        Some(n) => dec(n as nat),
        None => "N/A"@,
    }
}

pub open spec fn mem_or_na(o: Option<u64>) -> Seq<char> {
    match o {
        Some(m) => mem_text(m as nat),
        None => "N/A"@,
    }
}

/// The notes one per line, or "none".
pub open spec fn notes_text(notes: Seq<Seq<char>>) -> Seq<char> {
    if notes.len() == 0 {
        "none"@
    } else {
        join(notes, "\n"@)
    }
}

/// The job detail dialog: basic facts, resources, scheduling, placement,
/// paths and the rest, each missing value shown as "N/A".
pub open spec fn job_detail_sections_of(d: JobDetailView) -> Seq<(Seq<char>, Seq<(Seq<char>, Seq<char>)>)> {
    seq![
        (
            "Basic"@,
            seq![
                ("Job ID"@, d.job_id),
                ("Name"@, or_na(d.name)),
                ("User"@, or_na(d.user)),
                ("Account"@, or_na(d.account)),
                ("Partition"@, or_na(d.partition)),
                ("State"@, or_na(d.state)),
            ],
        ),
        (
            "Resources"@,
            seq![
                ("Nodes"@, count_or_na(d.nodes)),
                ("Tasks"@, count_or_na(d.n_tasks)),
                ("CPUs"@, count_or_na(d.cpus)),
                ("Memory"@, mem_or_na(d.memory_mb)),
                ("GPUs"@, count_or_na(d.requested_gpus)),
                ("GRES"@, or_na(d.gres)),
            ],
        ),
        (
            "Scheduling"@,
            seq![
                ("Runtime"@, or_na(d.runtime_raw)),
                ("Time limit"@, or_na(d.time_limit_raw)),
                ("Submit time"@, or_na(d.submit_time)),
                ("Start time"@, or_na(d.start_time)),
                ("End time"@, or_na(d.end_time)),
                ("Exit code"@, or_na(d.exit_code)),
            ],
        ),
        (
            "Placement / Reason"@,
            seq![
                ("Node list"@, or_na(d.node_list)),
                ("Reason"@, or_na(d.reason)),
                ("ReqTRES"@, or_na(d.req_tres)),
                ("AllocTRES"@, or_na(d.alloc_tres)),
            ],
        ),
        (
            "Paths"@,
            seq![
                ("Workdir"@, or_na(d.work_dir)),
                ("Stdout"@, or_na(d.stdout_path)),
                ("Stderr"@, or_na(d.stderr_path)),
            ],
        ),
        ("Extra"@, seq![("Command"@, or_na(d.command)), ("Notes"@, notes_text(d.source_notes))]),
    ]
}

fn na(o: &Option<String>) -> (s: String)
    ensures
        s@ == or_na(crate::model::types::opt_view(*o)),
{
    match o {
        Some(v) => clone_string(v),
        None => String::from_str("N/A"),
    }
}

fn count_text(n: u64) -> (s: String)
    ensures
        s@ == dec(n as nat),
{
    let mut v: Vec<char> = Vec::new();
    push_dec(&mut v, n);
    assert(v@ =~= dec(n as nat));
    string_of(&v)
}

fn count_na(o: Option<u32>) -> (s: String)
    ensures
        s@ == count_or_na(o),
{
    match o {
        Some(n) => count_text(n as u64),
        None => String::from_str("N/A"),
    }
}

fn mem_na(o: Option<u64>) -> (s: String)
    ensures
        s@ == mem_or_na(o),
{
    match o {
        Some(m) => format_mem_mb(m),
        None => String::from_str("N/A"),
    }
}

fn notes_joined(notes: &Vec<String>) -> (s: String)
    ensures
        s@ == notes_text(string_views(notes@)),
{
    if notes.len() == 0 {
        return String::from_str("none");
    }
    join_strings(notes, "\n")
}

fn pair(label: &str, value: String) -> (p: (String, String))
    ensures
        p.0@ == label@,
        p.1@ == value@,
{
    (String::from_str(label), value)
}

/// The sections of the job detail dialog.
pub fn job_detail_sections(d: &JobDetail) -> (r: Vec<Section>)
    ensures
        section_views(r@) == job_detail_sections_of(d@),
{
    let basic = vec![
        pair("Job ID", clone_string(&d.job_id)),
        pair("Name", na(&d.name)),
        pair("User", na(&d.user)),
        pair("Account", na(&d.account)),
        pair("Partition", na(&d.partition)),
        pair("State", na(&d.state)),
    ];
    let resources = vec![
        pair("Nodes", count_na(d.nodes)),
        pair("Tasks", count_na(d.n_tasks)),
        pair("CPUs", count_na(d.cpus)),
        pair("Memory", mem_na(d.memory_mb)),
        pair("GPUs", count_na(d.requested_gpus)),
        pair("GRES", na(&d.gres)),
    ];
    let scheduling = vec![
        pair("Runtime", na(&d.runtime_raw)),
        pair("Time limit", na(&d.time_limit_raw)),
        pair("Submit time", na(&d.submit_time)),
        pair("Start time", na(&d.start_time)),
        pair("End time", na(&d.end_time)),
        pair("Exit code", na(&d.exit_code)),
    ];
    let placement = vec![
        pair("Node list", na(&d.node_list)),
        pair("Reason", na(&d.reason)),
        pair("ReqTRES", na(&d.req_tres)),
        pair("AllocTRES", na(&d.alloc_tres)),
    ];
    let paths = vec![
        pair("Workdir", na(&d.work_dir)),
        pair("Stdout", na(&d.stdout_path)),
        pair("Stderr", na(&d.stderr_path)),
    ];
    let extra = vec![pair("Command", na(&d.command)), pair("Notes", notes_joined(&d.source_notes))];
    let ghost spec = job_detail_sections_of(d@);
    assert(field_views(basic@) =~= spec[0].1);
    assert(field_views(resources@) =~= spec[1].1);
    assert(field_views(scheduling@) =~= spec[2].1);
    assert(field_views(placement@) =~= spec[3].1);
    assert(field_views(paths@) =~= spec[4].1);
    assert(field_views(extra@) =~= spec[5].1);
    let r = vec![
        Section { title: String::from_str("Basic"), fields: basic },
        Section { title: String::from_str("Resources"), fields: resources },
        Section { title: String::from_str("Scheduling"), fields: scheduling },
        Section { title: String::from_str("Placement / Reason"), fields: placement },
        Section { title: String::from_str("Paths"), fields: paths },
        Section { title: String::from_str("Extra"), fields: extra },
    ];
    assert(section_views(r@) =~= spec);
    r
}

pub open spec fn scope_text(s: CancelScope) -> Seq<char> {
    match s {
        CancelScope::Single => "single job"@,
        CancelScope::Visible => "visible filtered jobs"@,
    }
}

fn scope_string(s: CancelScope) -> (r: String)
    ensures
        r@ == scope_text(s),
{
    match s {
        CancelScope::Single => String::from_str("single job"),
        CancelScope::Visible => String::from_str("visible filtered jobs"),
    }
}

/// No more jobs are allowed than were reviewed.
pub proof fn lemma_allowed_at_most(c: Seq<crate::app::CancelCandidate>)
    ensures
        allowed_ids(c).len() <= c.len(),
    decreases c.len(),
{
    if c.len() > 0 {
        lemma_allowed_at_most(c.drop_last());
    }
}

/// The review of a cancel: its summary fields, then what confirming does.
pub open spec fn cancel_review_of(title: Seq<char>, scope: CancelScope, reviewed: nat, allowed: nat) -> (
    Seq<(Seq<char>, Seq<char>)>,
    Seq<(Seq<char>, Seq<char>)>,
) {
    (
        seq![
            ("Operation"@, title),
            ("Scope"@, scope_text(scope)),
            ("Reviewed jobs"@, dec(reviewed)),
            ("Eligible jobs"@, dec(allowed)),
            ("Ineligible jobs"@, dec((reviewed - allowed) as nat)),
            ("Warning"@, "Dangerous action. Confirming starts scancel immediately for eligible jobs."@),
        ],
        seq![
            (
                "Will run"@,
                if scope == CancelScope::Single {
                    "scancel for the selected job"@
                } else {
                    "scancel for every eligible job in this preview"@
                },
            ),
            ("Affected jobs"@, dec(allowed)),
            ("Skipped jobs"@, dec((reviewed - allowed) as nat)),
        ],
    )
}

/// The summary and the action fields of the cancel review dialog.
pub fn cancel_review_fields(p: &CancelPreview) -> (r: (Vec<(String, String)>, Vec<(String, String)>))
    ensures
        (field_views(r.0@), field_views(r.1@)) == cancel_review_of(
            p.title@,
            p.scope,
            p.candidates@.len(),
            allowed_ids(p.candidates@).len(),
        ),
{
    let reviewed = p.candidates.len();
    let allowed = p.allowed_count();
    proof {
        lemma_allowed_at_most(p.candidates@);
    }
    let skipped = reviewed - allowed;
    let summary = vec![
        pair("Operation", clone_string(&p.title)),
        pair("Scope", scope_string(p.scope)),
        pair("Reviewed jobs", count_text(reviewed as u64)),
        pair("Eligible jobs", count_text(allowed as u64)),
        pair("Ineligible jobs", count_text(skipped as u64)),
        pair("Warning", String::from_str("Dangerous action. Confirming starts scancel immediately for eligible jobs.")),
    ];
    let will_run = if p.scope == CancelScope::Single {
        String::from_str("scancel for the selected job")
    } else {
        String::from_str("scancel for every eligible job in this preview")
    };
    let action = vec![
        pair("Will run", will_run),
        pair("Affected jobs", count_text(allowed as u64)),
        pair("Skipped jobs", count_text(skipped as u64)),
    ];
    let ghost spec = cancel_review_of(
        p.title@,
        p.scope,
        p.candidates@.len(),
        allowed_ids(p.candidates@).len(),
    );
    assert(field_views(summary@) =~= spec.0);
    assert(field_views(action@) =~= spec.1);
    (summary, action)
}

/// How many cancel requests succeeded, failed, and were skipped or
/// refused.
pub open spec fn outcome_counts(r: Seq<CancelOutcome>) -> (nat, nat, nat)
    decreases r.len(),
{
    if r.len() == 0 {
        (0, 0, 0)
    } else {
        let c = outcome_counts(r.drop_last());
        let o = r.last();
        if o.success {
            (c.0 + 1, c.1, c.2)
        } else if skipped_message(o.message@) {
            (c.0, c.1, c.2 + 1)
        } else {
            (c.0, c.1 + 1, c.2)
        }
    }
}

pub proof fn lemma_outcome_counts_sum(r: Seq<CancelOutcome>)
    ensures
        outcome_counts(r).0 + outcome_counts(r).1 + outcome_counts(r).2 == r.len(),
    decreases r.len(),
{
    if r.len() > 0 {
        lemma_outcome_counts_sum(r.drop_last());
    }
}

/// The summary of a cancel result.
pub open spec fn cancel_result_of(scope: CancelScope, r: Seq<CancelOutcome>) -> Seq<(Seq<char>, Seq<char>)> {
    let c = outcome_counts(r);
    seq![
        ("Scope"@, scope_text(scope)),
        ("Total requests"@, dec(r.len())),
        ("Succeeded"@, dec(c.0)),
        ("Failed"@, dec(c.1)),
        ("Skipped"@, dec(c.2)),
    ]
}

/// The requests of a result, counted by how they ended.
pub fn count_outcomes(results: &Vec<CancelOutcome>) -> (c: (usize, usize, usize))
    ensures
        (c.0 as nat, c.1 as nat, c.2 as nat) == outcome_counts(results@),
{
    let mut succeeded: usize = 0;
    let mut failed: usize = 0;
    let mut skipped: usize = 0;
    let mut i: usize = 0;
    while i < results.len()
        invariant
            i <= results@.len(),
            (succeeded as nat, failed as nat, skipped as nat) == outcome_counts(results@.take(i as int)),
        decreases results@.len() - i,
    {
        proof {
            lemma_outcome_counts_sum(results@.take(i as int));
        }
        assert(results@.take(i + 1).drop_last() =~= results@.take(i as int));
        assert(results@.take(i + 1).last() == results@[i as int]);
        let o = &results[i];
        if o.success {
            succeeded = succeeded + 1;
        } else if is_skipped_message(o.message.as_str()) {
            skipped = skipped + 1;
        } else {
            failed = failed + 1;
        }
        i = i + 1;
    }
    assert(results@.take(results@.len() as int) =~= results@);
    (succeeded, failed, skipped)
}

/// The summary fields of the cancel result dialog.
pub fn cancel_result_fields(report: &CancelReport) -> (r: Vec<(String, String)>)
    ensures
        field_views(r@) == cancel_result_of(report.scope, report.results@),
{
    let (succeeded, failed, skipped) = count_outcomes(&report.results);
    let r = vec![
        pair("Scope", scope_string(report.scope)),
        pair("Total requests", count_text(report.results.len() as u64)),
        pair("Succeeded", count_text(succeeded as u64)),
        pair("Failed", count_text(failed as u64)),
        pair("Skipped", count_text(skipped as u64)),
    ];
    assert(field_views(r@) =~= cancel_result_of(report.scope, report.results@));
    r
}

} // verus!
