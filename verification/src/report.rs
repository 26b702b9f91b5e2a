//! The plain-text summary of a one-shot run, and the pair of sample and
//! snapshot that the debug dump prints.
use vstd::prelude::*;

use crate::collector::RawSnapshot;
use crate::model::types::{
    job_views, partition_views, string_views,
    add_usage, usage_fits, used_for_pressure_of, ClusterSnapshot, JobView, MetricMode,
    PartitionView,
};
use crate::text::{append, append_str, chars_of, dec, push_dec, push_dec_wide, string_of};
use crate::ui::repeat_char;

verus! {

/// A raw sample and the snapshot built from it.
#[derive(Debug)]
pub struct DebugDump {
    pub raw: RawSnapshot,
    pub snapshot: ClusterSnapshot,
}

/// `s` followed by spaces up to `w` characters (`{:<w}`).
pub open spec fn fill_right(s: Seq<char>, w: nat) -> Seq<char> {
    if s.len() >= w {
        s
    } else {
        s + repeat_char(' ', (w - s.len()) as nat)
    }
}

/// Spaces up to `w` characters, then `s` (`{:>w}`).
pub open spec fn fill_left(s: Seq<char>, w: nat) -> Seq<char> {
    if s.len() >= w {
        s
    } else {
        repeat_char(' ', (w - s.len()) as nat) + s
    }
}

pub open spec fn bool_text(b: bool) -> Seq<char> {
    if b {
        "true"@
    } else {
        "false"@
    }
}

/// The first line of the summary.
pub open spec fn summary_header(host: Seq<char>, user: Seq<char>, sampled_ms: nat, degraded: bool) -> Seq<char> {
    "sqtop summary | host "@ + host + " | user "@ + user + " | sampled "@ + dec(sampled_ms)
        + " ms | degraded "@ + bool_text(degraded)
}

/// One partition: name, state, node totals and the job counts of the
/// current user and of the others.
pub open spec fn partition_summary_line(p: PartitionView) -> Seq<char> {
    "  "@ + fill_right(p.name, 12) + "  State: "@ + fill_right(p.state, 8) + "  Total nodes: "@
        + fill_left(dec(p.total_nodes as nat), 3) + "  Busy nodes: "@ + fill_left(
        dec(used_for_pressure_of(p, MetricMode::Nodes)),
        3,
    ) + "  Mine running: "@ + fill_left(dec(p.mine.running_jobs), 3) + "  Mine pending: "@
        + fill_left(dec(p.mine.pending_jobs), 3) + "  Others running: "@ + fill_left(
        dec(p.others.running_jobs),
        3,
    ) + "  Others pending: "@ + fill_left(dec(p.others.pending_jobs), 3)
}

/// One of the current user's active jobs.
pub open spec fn job_summary_line(j: JobView) -> Seq<char> {
    "  "@ + fill_right(j.job_id, 8) + "  Partition: "@ + fill_right(j.partition_raw, 12)
        + "  State: "@ + fill_right(j.state, 10) + "  Runtime: "@ + fill_right(j.runtime_raw, 8)
        + "  "@ + j.name
}

/// The current user's active jobs, in order.
pub open spec fn mine_active(jobs: Seq<JobView>) -> Seq<JobView>
    decreases jobs.len(),
{
    if jobs.len() == 0 {
        Seq::empty()
    } else {
        let rest = mine_active(jobs.drop_last());
        if jobs.last().is_mine && jobs.last().active {
            rest.push(jobs.last())
        } else {
            rest
        }
    }
}

/// At most the first `n` items.
pub open spec fn first_n<A>(s: Seq<A>, n: nat) -> Seq<A> {
    if s.len() <= n {
        s
    } else {
        s.take(n as int)
    }
}

pub open spec fn note_lines(notes: Seq<Seq<char>>) -> Seq<Seq<char>> {
    if notes.len() == 0 {
        Seq::empty()
    } else {
        seq!["notes:"@] + notes.map_values(|n: Seq<char>| "  - "@ + n)
    }
}

/// The summary: a header, every partition, the first twelve of the current
/// user's active jobs, and the notes when there are any.
pub open spec fn once_summary_of(
    host: Seq<char>,
    user: Seq<char>,
    sampled_ms: nat,
    degraded: bool,
    partitions: Seq<PartitionView>,
    jobs: Seq<JobView>,
    notes: Seq<Seq<char>>,
) -> Seq<Seq<char>> {
    seq![summary_header(host, user, sampled_ms, degraded), "partitions:"@] + partitions.map_values(
        |p: PartitionView| partition_summary_line(p),
    ) + seq!["my active jobs:"@] + first_n(mine_active(jobs), 12).map_values(
        |j: JobView| job_summary_line(j),
    ) + note_lines(notes)
}

fn push_fill_right(out: &mut Vec<char>, s: &Vec<char>, w: usize)
    ensures
        final(out)@ == old(out)@ + fill_right(s@, w as nat),
{
    append(out, s);
    if s.len() < w {
        let n = w - s.len();
        let mut i: usize = 0;
        while i < n
            invariant
                i <= n,
                out@ == old(out)@ + s@ + repeat_char(' ', i as nat),
            decreases n - i,
        {
            out.push(' ');
            i = i + 1;
            assert(out@ =~= old(out)@ + s@ + repeat_char(' ', i as nat));
        }
        assert(out@ =~= old(out)@ + fill_right(s@, w as nat));
    } else {
        assert(out@ =~= old(out)@ + fill_right(s@, w as nat));
    }
}

fn push_fill_left(out: &mut Vec<char>, s: &Vec<char>, w: usize)
    ensures
        final(out)@ == old(out)@ + fill_left(s@, w as nat),
{
    if s.len() < w {
        let n = w - s.len();
        let mut i: usize = 0;
        while i < n
            invariant
                i <= n,
                out@ == old(out)@ + repeat_char(' ', i as nat),
            decreases n - i,
        {
            out.push(' ');
            i = i + 1;
            assert(out@ =~= old(out)@ + repeat_char(' ', i as nat));
        }
    }
    append(out, s);
    assert(out@ =~= old(out)@ + fill_left(s@, w as nat));
}

fn push_count(out: &mut Vec<char>, n: u64)
    ensures
        final(out)@ == old(out)@ + fill_left(dec(n as nat), 3),
{
    let mut d: Vec<char> = Vec::new();
    push_dec(&mut d, n);
    assert(d@ =~= dec(n as nat));
    push_fill_left(out, &d, 3);
}

fn partition_line(p: &crate::model::types::PartitionOverview) -> (s: String)
    requires
        p.wf(),
        usage_fits(add_usage(p.mine@, p.others@)),
    ensures
        s@ == partition_summary_line(p@),
{
    let mut out = chars_of("  ");
    push_fill_right(&mut out, &chars_of(p.name.as_str()), 12);
    append_str(&mut out, "  State: ");
    push_fill_right(&mut out, &chars_of(p.state.as_str()), 8);
    append_str(&mut out, "  Total nodes: ");
    push_count(&mut out, p.total_nodes as u64);
    append_str(&mut out, "  Busy nodes: ");
    push_count(&mut out, p.used_for_pressure(MetricMode::Nodes));
    append_str(&mut out, "  Mine running: ");
    push_count(&mut out, p.mine.running_jobs as u64);
    append_str(&mut out, "  Mine pending: ");
    push_count(&mut out, p.mine.pending_jobs as u64);
    append_str(&mut out, "  Others running: ");
    push_count(&mut out, p.others.running_jobs as u64);
    append_str(&mut out, "  Others pending: ");
    push_count(&mut out, p.others.pending_jobs as u64);
    string_of(&out)
}

fn job_line(j: &crate::model::types::JobRecord) -> (s: String)
    ensures
        s@ == job_summary_line(j@),
{
    let mut out = chars_of("  ");
    push_fill_right(&mut out, &chars_of(j.job_id.as_str()), 8);
    append_str(&mut out, "  Partition: ");
    push_fill_right(&mut out, &chars_of(j.partition_raw.as_str()), 12);
    append_str(&mut out, "  State: ");
    push_fill_right(&mut out, &chars_of(j.state.as_str()), 10);
    append_str(&mut out, "  Runtime: ");
    push_fill_right(&mut out, &chars_of(j.runtime_raw.as_str()), 8);
    append_str(&mut out, "  ");
    append_str(&mut out, j.name.as_str());
    string_of(&out)
}

fn header_line(s: &ClusterSnapshot) -> (r: String)
    ensures
        r@ == summary_header(s.hostname@, s.current_user@, s.sample_duration_ms as nat, s.degraded),
{
    let mut out = chars_of("sqtop summary | host ");
    append_str(&mut out, s.hostname.as_str());
    append_str(&mut out, " | user ");
    append_str(&mut out, s.current_user.as_str());
    append_str(&mut out, " | sampled ");
    push_dec_wide(&mut out, s.sample_duration_ms);
    append_str(&mut out, " ms | degraded ");
    if s.degraded {
        append_str(&mut out, "true");
    } else {
        append_str(&mut out, "false");
    }
    string_of(&out)
}

/// The lines that a one-shot run prints for a snapshot.
pub fn once_summary_lines(snapshot: &ClusterSnapshot) -> (r: Vec<String>)
    requires
        forall|k: int|
            0 <= k < snapshot.partitions@.len() ==> (#[trigger] snapshot.partitions@[k]).wf()
                && usage_fits(add_usage(snapshot.partitions@[k].mine@, snapshot.partitions@[k].others@)),
    ensures
        string_views(r@) == once_summary_of(
            snapshot.hostname@,
            snapshot.current_user@,
            snapshot.sample_duration_ms as nat,
            snapshot.degraded,
            partition_views(snapshot.partitions@),
            job_views(snapshot.jobs@),
            string_views(snapshot.notes@),
        ),
{
    let ghost pv = partition_views(snapshot.partitions@);
    let ghost jv = job_views(snapshot.jobs@);
    let ghost nv = string_views(snapshot.notes@);
    let mut out: Vec<String> = Vec::new();
    out.push(header_line(snapshot));
    out.push(String::from_str("partitions:"));
    let ghost head = seq![
        summary_header(snapshot.hostname@, snapshot.current_user@, snapshot.sample_duration_ms as nat, snapshot.degraded),
        "partitions:"@,
    ];
    assert(string_views(out@) =~= head);
    let ps = &snapshot.partitions;
    let mut i: usize = 0;
    while i < ps.len()
        invariant
            i <= ps@.len(),
            ps == &snapshot.partitions,
            pv == partition_views(snapshot.partitions@),
            forall|k: int|
                0 <= k < ps@.len() ==> (#[trigger] ps@[k]).wf() && usage_fits(add_usage(ps@[k].mine@, ps@[k].others@)),
            string_views(out@) == head + pv.take(i as int).map_values(
                |p: PartitionView| partition_summary_line(p),
            ),
        decreases ps@.len() - i,
    {
        let ghost before = string_views(out@);
        assert(ps@[i as int].wf());
        out.push(partition_line(&ps[i]));
        assert(pv.take(i + 1).map_values(|p: PartitionView| partition_summary_line(p)) =~= pv.take(
            i as int,
        ).map_values(|p: PartitionView| partition_summary_line(p)).push(
            partition_summary_line(pv[i as int]),
        ));
        assert(string_views(out@) =~= before.push(partition_summary_line(pv[i as int])));
        i = i + 1;
    }
    assert(pv.take(ps@.len() as int) =~= pv);
    out.push(String::from_str("my active jobs:"));
    let ghost mid = head + pv.map_values(|p: PartitionView| partition_summary_line(p)) + seq![
        "my active jobs:"@,
    ];
    assert(string_views(out@) =~= mid);
    let js = &snapshot.jobs;
    let mut shown: usize = 0;
    let mut k: usize = 0;
    assert(jv.take(0) =~= Seq::<JobView>::empty());
    while k < js.len()
        invariant
            k <= js@.len(),
            js == &snapshot.jobs,
            jv == job_views(snapshot.jobs@),
            shown as nat == first_n(mine_active(jv.take(k as int)), 12).len(),
            shown <= 12,
            string_views(out@) == mid + first_n(mine_active(jv.take(k as int)), 12).map_values(
                |j: JobView| job_summary_line(j),
            ),
        decreases js@.len() - k,
    {
        let ghost before_seq = mine_active(jv.take(k as int));
        let ghost j = jv[k as int];
        assert(jv.take(k + 1).drop_last() =~= jv.take(k as int));
        assert(jv.take(k + 1).last() == j);
        assert(js@[k as int]@ == j);
        let job = &js[k];
        if job.is_mine && job.active {
            assert(mine_active(jv.take(k + 1)) == before_seq.push(j));
            if shown < 12 {
                let ghost b = string_views(out@);
                out.push(job_line(job));
                assert(first_n(before_seq, 12) == before_seq);
                assert(first_n(before_seq.push(j), 12) =~= before_seq.push(j));
                assert(before_seq.push(j).map_values(|x: JobView| job_summary_line(x)) =~= before_seq.map_values(
                    |x: JobView| job_summary_line(x),
                ).push(job_summary_line(j)));
                assert(string_views(out@) =~= b.push(job_summary_line(j)));
                shown = shown + 1;
            } else {
                assert(before_seq.push(j).take(12) =~= before_seq.take(12));
            }
        } else {
            assert(mine_active(jv.take(k + 1)) == before_seq);
        }
        k = k + 1;
    }
    assert(jv.take(js@.len() as int) =~= jv);
    let ghost with_jobs = string_views(out@);
    if snapshot.notes.len() > 0 {
        out.push(String::from_str("notes:"));
        let ns = &snapshot.notes;
        let mut m: usize = 0;
        while m < ns.len()
            invariant
                m <= ns@.len(),
                ns == &snapshot.notes,
                nv == string_views(snapshot.notes@),
                string_views(out@) == with_jobs + seq!["notes:"@] + nv.take(m as int).map_values(
                    |n: Seq<char>| "  - "@ + n,
                ),
            decreases ns@.len() - m,
        {
            let ghost b = string_views(out@);
            let mut line = chars_of("  - ");
            append_str(&mut line, ns[m].as_str());
            out.push(string_of(&line));
            assert(nv[m as int] == ns@[m as int]@);
            assert(nv.take(m + 1).map_values(|n: Seq<char>| "  - "@ + n) =~= nv.take(m as int).map_values(
                |n: Seq<char>| "  - "@ + n,
            ).push("  - "@ + nv[m as int]));
            assert(string_views(out@) =~= b.push("  - "@ + nv[m as int]));
            m = m + 1;
        }
        assert(nv.take(ns@.len() as int) =~= nv);
        assert(string_views(out@) =~= with_jobs + note_lines(nv));
    } else {
        assert(note_lines(nv) =~= Seq::<Seq<char>>::empty());
        assert(string_views(out@) =~= with_jobs + note_lines(nv));
    }
    out
}

} // verus!
