//! Per-user usage and the ranking of a user's partitions.
use vstd::prelude::*;

use crate::model::types::{Usage, UsageStats};
use crate::strmap::{lemma_lex_asymmetric, lemma_lex_irreflexive, lemma_lex_total,
    lemma_lex_transitive, lex_lt, StrMap};
use crate::text::{append_str, chars_of, push_dec, string_of, views};
use crate::model::types::{join, join_exec};
use crate::text::dec;

verus! {

/// One user's active jobs, in total and per partition.
#[derive(Debug)]
pub struct UserUsage {
    pub user: String,
    pub is_current_user: bool,
    pub jobs: UsageStats,
    pub partitions: StrMap<UsageStats>,
}

pub struct UserView {
    pub user: Seq<char>,
    pub is_current_user: bool,
    pub jobs: Usage,
    pub partitions: Map<Seq<char>, Usage>,
}

impl View for UserUsage {
    type V = UserView;

    open spec fn view(&self) -> UserView {
        UserView {
            user: self.user@,
            is_current_user: self.is_current_user,
            jobs: self.jobs@,
            partitions: self.partitions@.map_values(|u: UsageStats| u@),
        }
    }
}

/// The views of a sequence of per-user usages.
pub open spec fn user_views(v: Seq<UserUsage>) -> Seq<UserView> {
    v.map_values(|u: UserUsage| u@)
}

/// A partition's name and its usage.
pub type Row = (Seq<char>, Usage);

/// Active jobs of a usage: running plus pending.
pub open spec fn active_jobs(u: Usage) -> nat {
    u.running_jobs + u.pending_jobs
}

/// `a` comes before `b`: more active jobs first, then by name.
pub open spec fn rank_before(a: Row, b: Row) -> bool {
    active_jobs(a.1) > active_jobs(b.1) || (active_jobs(a.1) == active_jobs(b.1) && lex_lt(
        a.0,
        b.0,
    ))
}

/// Rows strictly in rank order.
pub open spec fn ranked(r: Seq<Row>) -> bool {
    forall|i: int, j: int| 0 <= i < j < r.len() ==> rank_before(#[trigger] r[i], #[trigger] r[j])
}

/// `r` lists the entries of `m`, each once, in rank order.
pub open spec fn is_ranking(r: Seq<Row>, m: Map<Seq<char>, Usage>) -> bool {
    &&& ranked(r)
    &&& forall|x: Row| r.contains(x) <==> (m.dom().contains(x.0) && m[x.0] == x.1)
}

/// The ranking of a map's entries.
pub open spec fn ranking_of(m: Map<Seq<char>, Usage>) -> Seq<Row> {
    choose|r: Seq<Row>| is_ranking(r, m)
}

/// The text of one ranked row.
pub open spec fn row_text(x: Row) -> Seq<char> {
    x.0 + " (Running: "@ + dec(x.1.running_jobs) + ", Pending: "@ + dec(x.1.pending_jobs) + ")"@
}

/// The summary of the first `limit` rows of a ranking.
pub open spec fn top_summary(r: Seq<Row>, limit: nat) -> Seq<char> {
    if r.len() == 0 {
        "No active partitions"@
    } else {
        join(
            r.take(if limit < r.len() { limit as int } else { r.len() as int }).map_values(
                |x: Row| row_text(x),
            ),
            ", "@,
        )
    }
}

pub proof fn lemma_rank_irreflexive(a: Row)
    ensures
        !rank_before(a, a),
{
    lemma_lex_irreflexive(a.0);
}

pub proof fn lemma_rank_asymmetric(a: Row, b: Row)
    requires
        rank_before(a, b),
    ensures
        !rank_before(b, a),
{
    if active_jobs(a.1) == active_jobs(b.1) {
        lemma_lex_asymmetric(a.0, b.0);
    }
}

pub proof fn lemma_rank_transitive(a: Row, b: Row, c: Row)
    requires
        rank_before(a, b),
        rank_before(b, c),
    ensures
        rank_before(a, c),
{
    if active_jobs(a.1) == active_jobs(b.1) && active_jobs(b.1) == active_jobs(c.1) {
        lemma_lex_transitive(a.0, b.0, c.0);
    }
}

/// Rows with different names are ordered one way or the other.
pub proof fn lemma_rank_total(a: Row, b: Row)
    requires
        a.0 != b.0,
    ensures
        rank_before(a, b) || rank_before(b, a),
{
    lemma_lex_total(a.0, b.0);
}

/// Two rankings of the same entries are the same sequence.
pub proof fn lemma_ranking_unique(r1: Seq<Row>, r2: Seq<Row>, m: Map<Seq<char>, Usage>)
    requires
        is_ranking(r1, m),
        is_ranking(r2, m),
    ensures
        r1 == r2,
{
    lemma_ranked_same_elements(r1, r2);
}

proof fn lemma_ranked_same_elements(r1: Seq<Row>, r2: Seq<Row>)
    requires
        ranked(r1),
        ranked(r2),
        forall|x: Row| r1.contains(x) <==> r2.contains(x),
    ensures
        r1 == r2,
    decreases r1.len(),
{
    if r1.len() == 0 {
        if r2.len() > 0 {
            assert(r2.contains(r2[0]));
        }
        assert(r1 =~= r2);
    } else {
        assert(r1.contains(r1[0]));
        assert(r2.len() > 0);
        let a = r1[0];
        let b = r2[0];
        assert(r2.contains(b));
        if a != b {
            let k = choose|k: int| 0 <= k < r2.len() && r2[k] == a;
            let j = choose|j: int| 0 <= j < r1.len() && r1[j] == b;
            if k == 0 {
                assert(false);
            }
            if j == 0 {
                assert(false);
            }
            assert(rank_before(r2[0], r2[k]));
            assert(rank_before(r1[0], r1[j]));
            lemma_rank_asymmetric(a, b);
        }
        let t1 = r1.drop_first();
        let t2 = r2.drop_first();
        assert forall|x: Row| t1.contains(x) <==> t2.contains(x) by {
            if t1.contains(x) {
                let i = choose|i: int| 0 <= i < t1.len() && t1[i] == x;
                assert(r1[i + 1] == x);
                assert(rank_before(r1[0], r1[i + 1]));
                lemma_rank_irreflexive(x);
                assert(r2.contains(x));
                let q = choose|q: int| 0 <= q < r2.len() && r2[q] == x;
                assert(q != 0);
                assert(t2[q - 1] == x);
            }
            if t2.contains(x) {
                let i = choose|i: int| 0 <= i < t2.len() && t2[i] == x;
                assert(r2[i + 1] == x);
                assert(rank_before(r2[0], r2[i + 1]));
                lemma_rank_irreflexive(x);
                assert(r1.contains(x));
                let q = choose|q: int| 0 <= q < r1.len() && r1[q] == x;
                assert(q != 0);
                assert(t1[q - 1] == x);
            }
        }
        assert(ranked(t1)) by {
            assert forall|i: int, j: int| 0 <= i < j < t1.len() implies rank_before(
                #[trigger] t1[i],
                #[trigger] t1[j],
            ) by {
                assert(t1[i] == r1[i + 1] && t1[j] == r1[j + 1]);
            }
        }
        assert(ranked(t2)) by {
            assert forall|i: int, j: int| 0 <= i < j < t2.len() implies rank_before(
                #[trigger] t2[i],
                #[trigger] t2[j],
            ) by {
                assert(t2[i] == r2[i + 1] && t2[j] == r2[j + 1]);
            }
        }
        lemma_ranked_same_elements(t1, t2);
        assert(r1 =~= seq![a] + t1);
        assert(r2 =~= seq![b] + t2);
    }
}

/// The rows of a list of (name, usage) pairs.
pub open spec fn row_views(v: Seq<(Vec<char>, UsageStats)>) -> Seq<Row> {
    v.map_values(|e: (Vec<char>, UsageStats)| (e.0@, e.1@))
}

/// Inserting `x` where the first row it ranks before stands keeps rows
/// ranked.
proof fn lemma_insert_ranked(rows: Seq<Row>, x: Row, p: int)
    requires
        ranked(rows),
        0 <= p <= rows.len(),
        forall|q: int| 0 <= q < p ==> !rank_before(x, #[trigger] rows[q]),
        p < rows.len() ==> rank_before(x, rows[p]),
        forall|q: int| 0 <= q < rows.len() ==> (#[trigger] rows[q]).0 != x.0,
    ensures
        ranked(rows.insert(p, x)),
{
    let n = rows.insert(p, x);
    assert forall|a: int, b: int| 0 <= a < b < n.len() implies rank_before(
        #[trigger] n[a],
        #[trigger] n[b],
    ) by {
        if b < p {
            assert(n[a] == rows[a] && n[b] == rows[b]);
        } else if b == p {
            assert(n[a] == rows[a]);
            assert(!rank_before(x, rows[a]));
            lemma_rank_total(rows[a], x);
        } else if a < p {
            assert(n[a] == rows[a] && n[b] == rows[b - 1]);
        } else if a == p {
            assert(n[b] == rows[b - 1]);
            if b - 1 > p {
                assert(rank_before(rows[p], rows[b - 1]));
                lemma_rank_transitive(x, rows[p], rows[b - 1]);
            }
        } else {
            assert(n[a] == rows[a - 1] && n[b] == rows[b - 1]);
        }
    }
}

impl UserUsage {
    pub open spec fn wf(&self) -> bool {
        self.partitions.wf()
    }

    /// Running plus pending jobs.
    pub fn total_jobs(&self) -> (n: u32)
        requires
            self.jobs@.running_jobs + self.jobs@.pending_jobs <= u32::MAX,
        ensures
            n == self.jobs@.running_jobs + self.jobs@.pending_jobs,
    {
        self.jobs.running_jobs + self.jobs.pending_jobs
    }

    /// Running plus pending nodes.
    pub fn total_nodes(&self) -> (n: u32)
        requires
            self.jobs@.running_nodes + self.jobs@.pending_nodes <= u32::MAX,
        ensures
            n == self.jobs@.running_nodes + self.jobs@.pending_nodes,
    {
        self.jobs.running_nodes + self.jobs.pending_nodes
    }

    /// Running plus pending CPUs.
    pub fn total_cpus(&self) -> (n: u64)
        requires
            self.jobs@.running_cpus + self.jobs@.pending_cpus <= u64::MAX,
        ensures
            n == self.jobs@.running_cpus + self.jobs@.pending_cpus,
    {
        self.jobs.running_cpus + self.jobs.pending_cpus
    }

    /// Running plus pending GPUs.
    pub fn total_gpus(&self) -> (n: u64)
        requires
            self.jobs@.running_gpus + self.jobs@.pending_gpus <= u64::MAX,
        ensures
            n == self.jobs@.running_gpus + self.jobs@.pending_gpus,
    {
        self.jobs.running_gpus + self.jobs.pending_gpus
    }

    /// The partitions with their usage, in rank order.
    fn ranked_rows(&self) -> (out: Vec<(Vec<char>, UsageStats)>)
        requires
            self.wf(),
        ensures
            is_ranking(row_views(out@), self@.partitions),
    {
        let m = &self.partitions;
        proof {
            m.lemma_positions();
        }
        let ghost keys = m.keys();
        let ghost vals = m.values();
        let n = m.len();
        let mut out: Vec<(Vec<char>, UsageStats)> = Vec::new();
        let mut i: usize = 0;
        while i < n
            invariant
                n == keys.len(),
                keys == m.keys(),
                vals == m.values(),
                m.wf(),
                i <= n,
                ranked(row_views(out@)),
                forall|x: Row| #[trigger]
                    row_views(out@).contains(x) <==> exists|j: int|
                        0 <= j < i && x == (keys[j], vals[j]@),
            decreases n - i,
        {
            let key = m.key_at(i);
            let k = chars_of(key.as_str());
            let v: UsageStats = *m.value_at(i);
            let ghost x: Row = (k@, v@);
            let ghost rows = row_views(out@);
            let active = v.running_jobs as u64 + v.pending_jobs as u64;
            let mut p: usize = 0;
            while p < out.len()
                invariant
                    p <= out@.len(),
                    rows == row_views(out@),
                    x == (k@, v@),
                    active == active_jobs(v@),
                    forall|q: int| 0 <= q < p ==> !rank_before(x, #[trigger] rows[q]),
                ensures
                    p <= out@.len(),
                    forall|q: int| 0 <= q < p ==> !rank_before(x, #[trigger] rows[q]),
                    p < rows.len() ==> rank_before(x, rows[p as int]),
                decreases out@.len() - p,
            {
                let other = out[p].1.running_jobs as u64 + out[p].1.pending_jobs as u64;
                if active > other || (active == other && crate::strmap::lex_lt_exec(&k, &out[p].0)) {
                    break;
                }
                p = p + 1;
            }
            proof {
                assert(p < rows.len() ==> rank_before(x, rows[p as int]));
                assert forall|q: int| 0 <= q < rows.len() implies (#[trigger] rows[q]).0 != x.0 by {
                    assert(rows.contains(rows[q]));
                    let j = choose|j: int| 0 <= j < i && rows[q] == (keys[j], vals[j]@);
                    assert(lex_lt(keys[j], keys[i as int]));
                    lemma_lex_irreflexive(keys[j]);
                }
                lemma_insert_ranked(rows, x, p as int);
            }
            out.insert(p, (k, v));
            proof {
                assert(row_views(out@) =~= rows.insert(p as int, x));
                assert forall|y: Row| #[trigger]
                    row_views(out@).contains(y) <==> exists|j: int|
                        0 <= j < i + 1 && y == (keys[j], vals[j]@) by {
                    let now = row_views(out@);
                    if now.contains(y) {
                        let q = choose|q: int| 0 <= q < now.len() && now[q] == y;
                        if q < p {
                            assert(rows[q] == y);
                            assert(rows.contains(y));
                        } else if q > p {
                            assert(rows[q - 1] == y);
                            assert(rows.contains(y));
                        }
                    }
                    if exists|j: int| 0 <= j < i + 1 && y == (keys[j], vals[j]@) {
                        let j = choose|j: int| 0 <= j < i + 1 && y == (keys[j], vals[j]@);
                        if j < i {
                            assert(rows.contains(y));
                            let q = choose|q: int| 0 <= q < rows.len() && rows[q] == y;
                            if q < p {
                                assert(now[q] == y);
                            } else {
                                assert(now[q + 1] == y);
                            }
                        } else {
                            assert(now[p as int] == y);
                        }
                    }
                }
            }
            i = i + 1;
        }
        proof {
            let mv = self@.partitions;
            assert forall|x: Row| #[trigger] row_views(out@).contains(x) <==> (mv.dom().contains(
                x.0,
            ) && mv[x.0] == x.1) by {
                if row_views(out@).contains(x) {
                    let j = choose|j: int| 0 <= j < n && x == (keys[j], vals[j]@);
                    assert(m@.dom().contains(keys[j]));
                }
                if mv.dom().contains(x.0) && mv[x.0] == x.1 {
                    assert(m.keys().contains(x.0));
                    let j = keys.index_of(x.0);
                    assert(m@[keys[j]] == vals[j]);
                    assert(x == (keys[j], vals[j]@));
                }
            }
        }
        out
    }

    /// The busiest partitions, at most `limit` of them, as
    /// `name (Running: r, Pending: p)` joined by commas.
    pub fn top_partitions_summary(&self, limit: usize) -> (s: String)
        requires
            self.wf(),
        ensures
            s@ == top_summary(ranking_of(self@.partitions), limit as nat),
    {
        let rows = self.ranked_rows();
        let ghost r = row_views(rows@);
        proof {
            lemma_ranking_unique(r, ranking_of(self@.partitions), self@.partitions);
        }
        if rows.len() == 0 {
            let s = String::from_str("No active partitions");
            return s;
        }
        let take = if limit < rows.len() {
            limit
        } else {
            rows.len()
        };
        let ghost chosen = r.take(take as int);
        let mut parts: Vec<Vec<char>> = Vec::new();
        let mut q: usize = 0;
        while q < take
            invariant
                take <= rows@.len(),
                r == row_views(rows@),
                chosen == r.take(take as int),
                q <= take,
                views(parts@) == chosen.take(q as int).map_values(|x: Row| row_text(x)),
            decreases take - q,
        {
            let mut t: Vec<char> = Vec::new();
            crate::text::append(&mut t, &rows[q].0);
            append_str(&mut t, " (Running: ");
            push_dec(&mut t, rows[q].1.running_jobs as u64);
            append_str(&mut t, ", Pending: ");
            push_dec(&mut t, rows[q].1.pending_jobs as u64);
            append_str(&mut t, ")");
            let ghost before = views(parts@);
            parts.push(t);
            proof {
                assert(t@ == row_text(r[q as int]));
                assert(views(parts@) =~= before.push(t@));
                assert(chosen.take(q + 1) =~= chosen.take(q as int).push(chosen[q as int]));
                assert(chosen.take(q + 1).map_values(|x: Row| row_text(x)) =~= chosen.take(
                    q as int,
                ).map_values(|x: Row| row_text(x)).push(row_text(chosen[q as int])));
            }
            q = q + 1;
        }
        assert(chosen.take(take as int) =~= chosen);
        let sep = chars_of(", ");
        let joined = join_exec(&parts, &sep);
        string_of(&joined)
    }
}

} // verus!
