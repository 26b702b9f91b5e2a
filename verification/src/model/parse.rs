//! Parsers for the text output of the Slurm commands.
use vstd::prelude::*;

use crate::arith::{
    carry, lemma_carry, lemma_digits_concat, lemma_digits_lt_pow10, lemma_pow10_add, lemma_pow10_mono,
    lemma_pow10_pos, lemma_round_kibi, lemma_round_scaled, lemma_zeros, pow10, zeros,
};
use vstd::arithmetic::div_mod::lemma_fundamental_div_mod;
use crate::model::types::{history_views, job_views, node_views, opt_view, partition_spec_views, string_views, JobDetail, JobDetailView, NodeDetail, NodeDetailView, PartitionSpec, PartitionSpecView, HistoryRecord, HistoryView, JobRecord, JobView, NodeRecord, NodeView};
use crate::collector::command::clone_strings;
use crate::strmap::StrMap;
use crate::text::{
    all_digits, blocks, blocks_exec, dec, lines, lines_exec, push_dec, uppercase_of, unicode_uppercase_exec, ascii_lower, ascii_lower_exec, digit_of, digits_value, is_ascii_alpha, is_digit, upper_char, chars_of, contains_str, contains_sub, copy_range, eq_str,
    parse_u64_exec, parse_u32_exec, parse_unsigned, split_exec, split_on, split_once,
    split_once_exec, string_of, trim, trim_end_char, trim_end_char_exec, trim_end_non_alpha,
    trim_end_non_alpha_exec, trim_exec, views, words, words_exec, append, append_str,
};

verus! {

/// The separator between `sinfo` and `squeue` output fields (U+001F).
pub const FIELD_SEP: char = '\u{1f}';

/// The result of arithmetic on parsed numbers: no number, a value, or an
/// overflow (where a debug build of plain integer arithmetic panics).
#[derive(Debug, Clone, Copy, PartialEq, Eq)]
pub enum Arith<T> {
    NoValue,
    Value(T),
    Overflow,
}

/// A partition name without surrounding blanks and the `*` that marks the
/// default partition.
pub open spec fn normalize_partition_of(raw: Seq<char>) -> Seq<char> {
    trim_end_char(trim(raw), '*')
}

/// A node state in lower case, without trailing flag characters such as
/// `*`, `~` or `#`.
pub open spec fn normalize_node_state_of(raw: Seq<char>) -> Seq<char> {
    ascii_lower(trim_end_non_alpha(trim(raw)))
}

pub open spec fn parse_u32_of(raw: Seq<char>) -> Option<u32> {
    match parse_unsigned(trim(raw), u32::MAX as nat) {
        Some(n) => Some(n as u32),
        None => None,
    }
}

pub open spec fn parse_u64_of(raw: Seq<char>) -> Option<u64> {
    match parse_unsigned(trim(raw), u64::MAX as nat) {
        Some(n) => Some(n as u64),
        None => None,
    }
}

/// A trimmed field, or nothing when it is empty or one of the placeholders
/// `N/A`, `(null)` and `Unknown`.
pub open spec fn clean_optional_of(raw: Seq<char>) -> Option<Seq<char>> {
    let v = trim(raw);
    if v.len() == 0 || v == "N/A"@ || v == "(null)"@ || v == "Unknown"@ {
        None
    } else {
        Some(v)
    }
}

pub fn normalize_partition(raw: &Vec<char>) -> (r: Vec<char>)
    ensures
        r@ == normalize_partition_of(raw@),
{
    let t = trim_exec(raw);
    trim_end_char_exec(&t, '*')
}

pub fn normalize_node_state(raw: &Vec<char>) -> (r: Vec<char>)
    ensures
        r@ == normalize_node_state_of(raw@),
{
    let t = trim_exec(raw);
    let u = trim_end_non_alpha_exec(&t);
    ascii_lower_exec(&u)
}

pub fn parse_u32(raw: &Vec<char>) -> (r: Option<u32>)
    ensures
        r == parse_u32_of(raw@),
{
    let t = trim_exec(raw);
    match parse_u32_exec(&t) {
        Some(n) => Some(n),
        None => None,
    }
}

pub fn parse_u64(raw: &Vec<char>) -> (r: Option<u64>)
    ensures
        r == parse_u64_of(raw@),
{
    let t = trim_exec(raw);
    match parse_u64_exec(&t) {
        Some(n) => Some(n),
        None => None,
    }
}

pub fn clean_optional(raw: &Vec<char>) -> (r: Option<Vec<char>>)
    ensures
        match r {
            Some(v) => clean_optional_of(raw@) == Some(v@),
            None => clean_optional_of(raw@) is None,
        },
{
    let v = trim_exec(raw);
    if v.len() == 0 || eq_str(&v, "N/A") || eq_str(&v, "(null)") || eq_str(&v, "Unknown") {
        None
    } else {
        Some(v)
    }
}

pub fn clean_optional_string(raw: &Vec<char>) -> (r: Option<String>)
    ensures
        opt_view(r) == clean_optional_of(raw@),
{
    match clean_optional(raw) {
        Some(v) => Some(string_of(&v)),
        None => None,
    }
}

/// The normalized, non-empty names among the comma-separated pieces.
pub open spec fn nonempty_partitions(pieces: Seq<Seq<char>>) -> Seq<Seq<char>>
    decreases pieces.len(),
{
    if pieces.len() == 0 {
        Seq::empty()
    } else {
        let r = nonempty_partitions(pieces.drop_last());
        let p = normalize_partition_of(pieces.last());
        if p.len() > 0 {
            r.push(p)
        } else {
            r
        }
    }
}

/// The partitions a job may run in; `unknown` when none is named.
pub open spec fn split_partitions_of(raw: Seq<char>) -> Seq<Seq<char>> {
    let values = nonempty_partitions(split_on(raw, ','));
    if values.len() == 0 {
        seq!["unknown"@]
    } else {
        values
    }
}

pub fn split_partitions(raw: &Vec<char>) -> (r: Vec<String>)
    ensures
        r@.map_values(|s: String| s@) == split_partitions_of(raw@),
{
    let pieces = split_exec(raw, ',');
    let mut values: Vec<String> = Vec::new();
    let mut i: usize = 0;
    while i < pieces.len()
        invariant
            i <= pieces@.len(),
            views(pieces@) == split_on(raw@, ','),
            values@.map_values(|s: String| s@) == nonempty_partitions(views(pieces@).take(i as int)),
        decreases pieces@.len() - i,
    {
        let p = normalize_partition(&pieces[i]);
        let ghost before = values@;
        if p.len() > 0 {
            values.push(string_of(&p));
        }
        i = i + 1;
        proof {
            let now = views(pieces@).take(i as int);
            assert(now.drop_last() =~= views(pieces@).take(i - 1));
            assert(now.last() == pieces@[i - 1]@);
            assert(values@.map_values(|s: String| s@) =~= nonempty_partitions(now));
        }
    }
    assert(views(pieces@).take(pieces@.len() as int) =~= views(pieces@));
    if values.len() == 0 {
        let mut r: Vec<String> = Vec::new();
        r.push(String::from_str("unknown"));
        assert(r@.map_values(|s: String| s@) =~= seq!["unknown"@]);
        r
    } else {
        values
    }
}


/// `str::parse::<u64>` without trimming.
pub open spec fn p64(s: Seq<char>) -> Option<nat> {
    parse_unsigned(s, u64::MAX as nat)
}

/// `m:s` in seconds, evaluated as `m * 60 + s` in `u64`.
pub open spec fn two_part_secs(m: Seq<char>, s: Seq<char>) -> Arith<nat> {
    match p64(m) {
        None => Arith::NoValue,
        Some(mv) => if mv * 60 > u64::MAX {
            Arith::Overflow
        } else {
            match p64(s) {
                None => Arith::NoValue,
                Some(sv) => if mv * 60 + sv > u64::MAX {
                    Arith::Overflow
                } else {
                    Arith::Value(mv * 60 + sv)
                },
            }
        },
    }
}

/// `h:m:s` in seconds, evaluated as `h * 3600 + m * 60 + s` in `u64`.
pub open spec fn three_part_secs(h: Seq<char>, m: Seq<char>, s: Seq<char>) -> Arith<nat> {
    match p64(h) {
        None => Arith::NoValue,
        Some(hv) => if hv * 3600 > u64::MAX {
            Arith::Overflow
        } else {
            match p64(m) {
                None => Arith::NoValue,
                Some(mv) => if mv * 60 > u64::MAX || hv * 3600 + mv * 60 > u64::MAX {
                    Arith::Overflow
                } else {
                    match p64(s) {
                        None => Arith::NoValue,
                        Some(sv) => if hv * 3600 + mv * 60 + sv > u64::MAX {
                            Arith::Overflow
                        } else {
                            Arith::Value(hv * 3600 + mv * 60 + sv)
                        },
                    }
                },
            }
        },
    }
}

/// A Slurm duration `[days-][hours:]minutes:seconds` in seconds; no value
/// for `UNLIMITED`, `N/A`, `Partition_Limit` or malformed text.
pub open spec fn duration_outcome(raw: Seq<char>) -> Arith<nat> {
    let t = trim(raw);
    if t.len() == 0 || t == "UNLIMITED"@ || t == "N/A"@ || t == "Partition_Limit"@ {
        Arith::NoValue
    } else {
        let days_rest: (Option<nat>, Seq<char>) = match split_once(t, '-') {
            Some((d, r)) => (p64(d), r),
            None => (Some(0nat), t),
        };
        match days_rest.0 {
            None => Arith::NoValue,
            Some(days) => {
                let parts = split_on(days_rest.1, ':');
                let secs = if parts.len() == 2 {
                    two_part_secs(parts[0], parts[1])
                } else if parts.len() == 3 {
                    three_part_secs(parts[0], parts[1], parts[2])
                } else {
                    Arith::NoValue
                };
                match secs {
                    Arith::Value(sv) => if days * 86400 > u64::MAX || days * 86400 + sv
                        > u64::MAX {
                        Arith::Overflow
                    } else {
                        Arith::Value(days * 86400 + sv)
                    },
                    other => other,
                }
            },
        }
    }
}

fn p64_exec(v: &Vec<char>) -> (r: Option<u64>)
    ensures
        match r {
            Some(n) => p64(v@) == Some(n as nat),
            None => p64(v@) is None,
        },
{
    parse_u64_exec(v)
}

/// Computes a duration with checked arithmetic.
pub fn duration_checked(raw: &Vec<char>) -> (r: Arith<u64>)
    ensures
        match r {
            Arith::NoValue => duration_outcome(raw@) == Arith::<nat>::NoValue,
            Arith::Value(v) => duration_outcome(raw@) == Arith::Value(v as nat),
            Arith::Overflow => duration_outcome(raw@) == Arith::<nat>::Overflow,
        },
{
    let t = trim_exec(raw);
    if t.len() == 0 || eq_str(&t, "UNLIMITED") || eq_str(&t, "N/A") || eq_str(
        &t,
        "Partition_Limit",
    ) {
        return Arith::NoValue;
    }
    let (days, rest) = match split_once_exec(&t, '-') {
        Some((d, r)) => {
            match p64_exec(&d) {
                Some(dv) => (dv, r),
                None => {
                    return Arith::NoValue;
                },
            }
        },
        None => (0u64, t),
    };
    let parts = split_exec(&rest, ':');
    let secs: u64;
    if parts.len() == 2 {
        let mv = match p64_exec(&parts[0]) {
            Some(x) => x,
            None => {
                return Arith::NoValue;
            },
        };
        let m60 = match mv.checked_mul(60) {
            Some(x) => x,
            None => {
                return Arith::Overflow;
            },
        };
        let sv = match p64_exec(&parts[1]) {
            Some(x) => x,
            None => {
                return Arith::NoValue;
            },
        };
        secs = match m60.checked_add(sv) {
            Some(x) => x,
            None => {
                return Arith::Overflow;
            },
        };
    } else if parts.len() == 3 {
        let hv = match p64_exec(&parts[0]) {
            Some(x) => x,
            None => {
                return Arith::NoValue;
            },
        };
        let h3600 = match hv.checked_mul(3600) {
            Some(x) => x,
            None => {
                return Arith::Overflow;
            },
        };
        let mv = match p64_exec(&parts[1]) {
            Some(x) => x,
            None => {
                return Arith::NoValue;
            },
        };
        let m60 = match mv.checked_mul(60) {
            Some(x) => x,
            None => {
                return Arith::Overflow;
            },
        };
        let hm = match h3600.checked_add(m60) {
            Some(x) => x,
            None => {
                return Arith::Overflow;
            },
        };
        let sv = match p64_exec(&parts[2]) {
            Some(x) => x,
            None => {
                return Arith::NoValue;
            },
        };
        secs = match hm.checked_add(sv) {
            Some(x) => x,
            None => {
                return Arith::Overflow;
            },
        };
    } else {
        return Arith::NoValue;
    }
    let d86400 = match days.checked_mul(86400) {
        Some(x) => x,
        None => {
            return Arith::Overflow;
        },
    };
    match d86400.checked_add(secs) {
        Some(x) => Arith::Value(x),
        None => Arith::Overflow,
    }
}

/// Whether reading `raw` as a duration stays within `u64`.
pub open spec fn duration_fits(raw: Seq<char>) -> bool {
    duration_outcome(raw) != Arith::<nat>::Overflow
}

/// A Slurm duration in seconds.
pub open spec fn duration_of(raw: Seq<char>) -> Option<u64> {
    match duration_outcome(raw) {
        Arith::Value(v) => Some(v as u64),
        _ => None,
    }
}

/// Reads a Slurm duration such as `1:02:03` or `2-00:00:00` in seconds.
pub fn parse_slurm_duration(raw: &str) -> (r: Option<u64>)
    requires
        duration_fits(raw@),
    ensures
        r == duration_of(raw@),
{
    let v = chars_of(raw);
    parse_duration_chars(&v)
}

pub fn parse_duration_chars(raw: &Vec<char>) -> (r: Option<u64>)
    requires
        duration_fits(raw@),
    ensures
        r == duration_of(raw@),
{
    match duration_checked(raw) {
        Arith::Value(v) => Some(v),
        _ => None,
    }
}

/// The text after the last `:` or `=`, or all of `s` when it has neither.
pub open spec fn after_last_sep(s: Seq<char>) -> Seq<char>
    decreases s.len(),
{
    if s.len() == 0 {
        s
    } else if s.last() == ':' || s.last() == '=' {
        Seq::empty()
    } else {
        after_last_sep(s.drop_last()).push(s.last())
    }
}

pub fn after_last_sep_exec(v: &Vec<char>) -> (r: Vec<char>)
    ensures
        r@ == after_last_sep(v@),
{
    let mut i = v.len();
    assert(v@.take(i as int) =~= v@);
    assert(v@.subrange(i as int, v@.len() as int) =~= Seq::<char>::empty());
    assert(after_last_sep(v@) + Seq::<char>::empty() =~= after_last_sep(v@));
    while i > 0 && v[i - 1] != ':' && v[i - 1] != '='
        invariant
            i <= v@.len(),
            after_last_sep(v@) == after_last_sep(v@.take(i as int)) + v@.subrange(
                i as int,
                v@.len() as int,
            ),
        decreases i,
    {
        let ghost pre = v@.take(i as int);
        assert(pre.drop_last() =~= v@.take(i - 1));
        assert(v@.subrange(i - 1, v@.len() as int) =~= seq![v@[i - 1]] + v@.subrange(
            i as int,
            v@.len() as int,
        ));
        assert(after_last_sep(pre) == after_last_sep(v@.take(i - 1)).push(v@[i - 1]));
        assert(after_last_sep(pre) + v@.subrange(i as int, v@.len() as int) =~= after_last_sep(
            v@.take(i - 1),
        ) + v@.subrange(i - 1, v@.len() as int));
        i = i - 1;
    }
    proof {
        if i == 0 {
            assert(v@.take(0) =~= Seq::<char>::empty());
        }
        assert(after_last_sep(v@.take(i as int)) =~= Seq::<char>::empty());
        assert(v@.subrange(i as int, v@.len() as int) =~= after_last_sep(v@));
    }
    copy_range(v, i, v.len())
}

/// The GPUs one `gpu` segment counts: its trailing number, or one.
pub open spec fn gpu_segment_value(seg: Seq<char>) -> nat {
    match parse_u32_of(after_last_sep(seg)) {
        Some(v) => v as nat,
        None => 1,
    }
}

/// The total and whether any segment mentioned `gpu`, over trimmed
/// comma-separated segments.
pub open spec fn gpu_sum(segs: Seq<Seq<char>>) -> (nat, bool)
    decreases segs.len(),
{
    if segs.len() == 0 {
        (0, false)
    } else {
        let r = gpu_sum(segs.drop_last());
        let seg = trim(segs.last());
        if contains_sub(seg, "gpu"@) {
            (r.0 + gpu_segment_value(seg), true)
        } else {
            r
        }
    }
}

/// The GPU count of a GRES or TRES-per-node string such as
/// `gpu:l40:8` or `gres/gpu=2,gres/gpu:a100=1`.
pub open spec fn gpu_outcome(raw: Seq<char>) -> Arith<nat> {
    let t = trim(raw);
    if t.len() == 0 || t == "N/A"@ || t == "(null)"@ {
        Arith::NoValue
    } else {
        let r = gpu_sum(split_on(t, ','));
        if !r.1 {
            Arith::NoValue
        } else if r.0 > u32::MAX {
            Arith::Overflow
        } else {
            Arith::Value(r.0)
        }
    }
}

proof fn lemma_gpu_sum_monotone(segs: Seq<Seq<char>>, k: int)
    requires
        0 <= k <= segs.len(),
    ensures
        gpu_sum(segs.take(k)).0 <= gpu_sum(segs).0,
        gpu_sum(segs.take(k)).1 ==> gpu_sum(segs).1,
    decreases segs.len(),
{
    if k < segs.len() {
        assert(segs.drop_last().take(k) =~= segs.take(k));
        lemma_gpu_sum_monotone(segs.drop_last(), k);
    } else {
        assert(segs.take(k) =~= segs);
    }
}

pub fn gpu_checked(raw: &Vec<char>) -> (r: Arith<u32>)
    ensures
        match r {
            Arith::NoValue => gpu_outcome(raw@) == Arith::<nat>::NoValue,
            Arith::Value(v) => gpu_outcome(raw@) == Arith::Value(v as nat),
            Arith::Overflow => gpu_outcome(raw@) == Arith::<nat>::Overflow,
        },
{
    let t = trim_exec(raw);
    if t.len() == 0 || eq_str(&t, "N/A") || eq_str(&t, "(null)") {
        return Arith::NoValue;
    }
    let segs = split_exec(&t, ',');
    let mut total: u32 = 0;
    let mut found = false;
    let mut i: usize = 0;
    while i < segs.len()
        invariant
            i <= segs@.len(),
            t@ == trim(raw@),
            !(t@.len() == 0 || t@ == "N/A"@ || t@ == "(null)"@),
            views(segs@) == split_on(t@, ','),
            gpu_sum(views(segs@).take(i as int)) == (total as nat, found),
        decreases segs@.len() - i,
    {
        let seg = trim_exec(&segs[i]);
        let ghost now = views(segs@).take(i + 1);
        proof {
            assert(now.drop_last() =~= views(segs@).take(i as int));
            assert(now.last() == segs@[i as int]@);
        }
        if contains_str(&seg, "gpu") {
            let piece = after_last_sep_exec(&seg);
            let value: u32 = match parse_u32(&piece) {
                Some(v) => v,
                None => 1,
            };
            match total.checked_add(value) {
                Some(x) => {
                    total = x;
                },
                None => {
                    proof {
                        lemma_gpu_sum_monotone(views(segs@), i + 1);
                        assert(views(segs@).take(segs@.len() as int) =~= views(segs@));
                    }
                    return Arith::Overflow;
                },
            }
            found = true;
        }
        i = i + 1;
    }
    assert(views(segs@).take(segs@.len() as int) =~= views(segs@));
    if found {
        Arith::Value(total)
    } else {
        Arith::NoValue
    }
}

pub open spec fn gpu_fits(raw: Seq<char>) -> bool {
    gpu_outcome(raw) != Arith::<nat>::Overflow
}

pub open spec fn gpu_count_of(raw: Seq<char>) -> Option<u32> {
    match gpu_outcome(raw) {
        Arith::Value(v) => Some(v as u32),
        _ => None,
    }
}

/// Counts the GPUs named in a GRES or TRES string.
pub fn parse_gpu_count(raw: &str) -> (r: Option<u32>)
    requires
        gpu_fits(raw@),
    ensures
        r == gpu_count_of(raw@),
{
    let v = chars_of(raw);
    gpu_count_chars(&v)
}

pub fn gpu_count_chars(raw: &Vec<char>) -> (r: Option<u32>)
    requires
        gpu_fits(raw@),
    ensures
        r == gpu_count_of(raw@),
{
    match gpu_checked(raw) {
        Arith::Value(v) => Some(v),
        _ => None,
    }
}


/// The digits of an unsigned decimal as `f64::from_str` reads them: digits
/// with an optional point, at least one digit in all. The result is
/// (integer digits, fraction digits).
pub open spec fn mantissa_parts(s: Seq<char>) -> Option<(Seq<char>, Seq<char>)> {
    let parts: (Seq<char>, Seq<char>) = match split_once(s, '.') {
        Some((a, b)) => (a, b),
        None => (s, Seq::<char>::empty()),
    };
    if parts.0.len() + parts.1.len() > 0 && all_digits(parts.0) && all_digits(parts.1) {
        Some(parts)
    } else {
        None
    }
}

/// The text of an exponent: an optional sign, then at least one digit.
/// The result is (negative, digits).
pub open spec fn exponent_parts(s: Seq<char>) -> Option<(bool, Seq<char>)> {
    let neg = s.len() > 0 && s[0] == '-';
    let body = if s.len() > 0 && (s[0] == '+' || s[0] == '-') {
        s.drop_first()
    } else {
        s
    };
    if body.len() > 0 && all_digits(body) {
        Some((neg, body))
    } else {
        None
    }
}

/// The value of an exponent's parts.
pub open spec fn signed_value(neg: bool, ds: Seq<char>) -> int {
    if neg {
        -(digits_value(ds) as int)
    } else {
        digits_value(ds) as int
    }
}

/// What an unsigned float literal denotes.
pub enum FloatForm {
    /// `digits_value(digits) * 10^scale`.
    Finite { digits: Seq<char>, scale: int },
    Infinite,
    NotANumber,
}

/// The mantissa text and the exponent text of a decimal: split at its
/// first `e` (or, with none, its first `E`); with neither the exponent is
/// empty and stands for 0.
pub open spec fn exponent_split(s: Seq<char>) -> (Seq<char>, Option<Seq<char>>) {
    match split_once(s, 'e') {
        Some((m, x)) => (m, Some(x)),
        None => match split_once(s, 'E') {
            Some((m, x)) => (m, Some(x)),
            None => (s, None),
        },
    }
}

/// A decimal with an optional point and an optional exponent (`e` or `E`,
/// an optional sign, digits).
pub open spec fn finite_form(s: Seq<char>) -> Option<FloatForm> {
    let sp = exponent_split(s);
    let exp: Option<(bool, Seq<char>)> = match sp.1 {
        Some(x) => exponent_parts(x),
        None => Some((false, Seq::<char>::empty())),
    };
    match (mantissa_parts(sp.0), exp) {
        (Some((ip, fp)), Some((eneg, ed))) => Some(
            FloatForm::Finite { digits: ip + fp, scale: signed_value(eneg, ed) - fp.len() },
        ),
        _ => None,
    }
}

/// An unsigned float literal as `f64::from_str` reads it: `inf`,
/// `infinity` or `nan` in any case, or a finite decimal.
pub open spec fn float_form(s: Seq<char>) -> Option<FloatForm> {
    let low = ascii_lower(s);
    if low == "inf"@ || low == "infinity"@ {
        Some(FloatForm::Infinite)
    } else if low == "nan"@ {
        Some(FloatForm::NotANumber)
    } else {
        finite_form(s)
    }
}

/// `digits_value(digits) * 10^scale` as a fraction `(n, d)`.
pub open spec fn scaled_fraction(digits: Seq<char>, scale: int) -> (nat, nat) {
    if scale >= 0 {
        (digits_value(digits) * pow10(scale as nat), 1)
    } else {
        (digits_value(digits), pow10((-scale) as nat))
    }
}

/// `n / d` times `num / den`, rounded half up, saturated at `u64::MAX`.
pub open spec fn rounded_u64(n: nat, d: nat, num: nat, den: nat) -> u64 {
    let r = (2 * n * num + d * den) / (2 * d * den);
    if r > u64::MAX {
        u64::MAX
    } else {
        r as u64
    }
}

/// The factor `num / den` a TRES unit letter applies to a value in MiB:
/// `K` divides by 1024, `G`, `T` and `P` multiply by powers of 1024, and
/// `M`, any other letter or no letter leave it as is.
pub open spec fn unit_scale(unit: Option<char>) -> (nat, nat) {
    match unit {
        None => (1, 1),
        Some(c) => {
            let u = upper_char(c);
            if u == 'K' {
                (1, 1024)
            } else if u == 'G' {
                (1024, 1)
            } else if u == 'T' {
                (1048576, 1)
            } else if u == 'P' {
                (1073741824, 1)
            } else {
                (1, 1)
            }
        },
    }
}

/// A TRES quantity such as `40000M`, `62.50G` or `1e3` in MiB, read as a
/// float and rounded half away from zero; negative values and `nan` give 0,
/// `inf` and values past `u64::MAX` give `u64::MAX`, as converting a float
/// to `u64` does.
#[verifier::opaque]
pub open spec fn tres_value_of(raw: Seq<char>) -> Option<u64> {
    let v = trim(raw);
    if v.len() == 0 {
        None
    } else {
        let number = if is_ascii_alpha(v.last()) { v.drop_last() } else { v };
        let unit = if is_ascii_alpha(v.last()) { Some(v.last()) } else { None };
        let neg = number.len() > 0 && number[0] == '-';
        let body = if number.len() > 0 && (number[0] == '+' || number[0] == '-') {
            number.drop_first()
        } else {
            number
        };
        match float_form(body) {
            None => None,
            Some(FloatForm::NotANumber) => Some(0u64),
            Some(FloatForm::Infinite) => Some(if neg { 0u64 } else { u64::MAX }),
            Some(FloatForm::Finite { digits, scale }) => if neg {
                Some(0u64)
            } else {
                let f = scaled_fraction(digits, scale);
                let u = unit_scale(unit);
                Some(rounded_u64(f.0, f.1, u.0, u.1))
            },
        }
    }
}

fn all_digits_exec(v: &Vec<char>) -> (r: bool)
    ensures
        r == all_digits(v@),
{
    let mut i: usize = 0;
    while i < v.len()
        invariant
            i <= v@.len(),
            forall|j: int| 0 <= j < i ==> is_digit(#[trigger] v@[j]),
        decreases v@.len() - i,
    {
        if !('0' <= v[i] && v[i] <= '9') {
            assert(!is_digit(v@[i as int]));
            return false;
        }
        i = i + 1;
    }
    true
}

/// `floor(value(fs) * k / 10^len)` by carries from the last digit.
fn carry_exec(fs: &Vec<char>, k: u64) -> (c: u64)
    requires
        all_digits(fs@),
        0 < k <= 0x1_0000_0000,
    ensures
        c == carry(fs@, k as nat),
        c < k,
{
    let mut i = fs.len();
    let mut c: u64 = 0;
    assert(fs@.skip(i as int) =~= Seq::<char>::empty());
    while i > 0
        invariant
            i <= fs@.len(),
            all_digits(fs@),
            0 < k <= 0x1_0000_0000,
            c == carry(fs@.skip(i as int), k as nat),
            c < k,
        decreases i,
    {
        let ch = fs[i - 1];
        assert(is_digit(fs@[i - 1]));
        let dv: u64 = (ch as u32 - '0' as u32) as u64;
        assert(dv == digit_of(ch));
        assert(fs@.skip(i - 1).drop_first() =~= fs@.skip(i as int));
        assert(fs@.skip(i - 1)[0] == ch);
        assert(dv * k + c < 10 * k) by (nonlinear_arith)
            requires
                dv <= 9,
                c < k,
        ;
        assert(dv * k + c <= 10 * 0x1_0000_0000) by (nonlinear_arith)
            requires
                dv <= 9,
                c < k,
                k <= 0x1_0000_0000,
        ;
        c = (dv * k + c) / 10;
        i = i - 1;
    }
    assert(fs@.skip(0) =~= fs@);
    c
}

fn unit_scale_exec(unit: Option<char>) -> (r: (u64, u64))
    ensures
        r.0 == unit_scale(unit).0,
        r.1 == unit_scale(unit).1,
{
    match unit {
        None => (1, 1),
        Some(ch) => {
            let u = crate::text::upper_char_exec(ch);
            if u == 'K' {
                (1, 1024)
            } else if u == 'G' {
                (1024, 1)
            } else if u == 'T' {
                (1048576, 1)
            } else if u == 'P' {
                (1073741824, 1)
            } else {
                (1, 1)
            }
        },
    }
}

#[verifier::spinoff_prover]
#[verifier::rlimit(60)]
fn mantissa_parts_exec(s: &Vec<char>) -> (r: Option<(Vec<char>, Vec<char>)>)
    ensures
        match r {
            Some((ip, fp)) => mantissa_parts(s@) == Some((ip@, fp@)),
            None => mantissa_parts(s@) is None,
        },
{
    let (ip, fp) = match split_once_exec(s, '.') {
        Some((a, b)) => (a, b),
        None => (copy_range(s, 0, s.len()), Vec::new()),
    };
    assert(s@.subrange(0, s@.len() as int) == s@);
    if ip.len() == 0 && fp.len() == 0 {
        return None;
    }
    if !all_digits_exec(&ip) || !all_digits_exec(&fp) {
        return None;
    }
    Some((ip, fp))
}

fn exponent_parts_exec(s: &Vec<char>) -> (r: Option<(bool, Vec<char>)>)
    ensures
        match r {
            Some((neg, ds)) => exponent_parts(s@) == Some((neg, ds@)),
            None => exponent_parts(s@) is None,
        },
{
    let m = s.len();
    let neg = m > 0 && s[0] == '-';
    let start: usize = if m > 0 && (s[0] == '-' || s[0] == '+') { 1 } else { 0 };
    let body = copy_range(s, start, m);
    assert(body@ == (if s@.len() > 0 && (s@[0] == '+' || s@[0] == '-') {
        s@.drop_first()
    } else {
        s@
    }));
    if body.len() == 0 || !all_digits_exec(&body) {
        return None;
    }
    Some((neg, body))
}

/// The kinds of float literal `float_form_exec` tells apart.
pub enum FloatKind {
    Invalid,
    Infinite,
    NotANumber,
    Finite,
}

fn exponent_split_exec(s: &Vec<char>) -> (r: (Vec<char>, Option<Vec<char>>))
    ensures
        exponent_split(s@) == (r.0@, match r.1 {
            Some(x) => Some(x@),
            None => None,
        }),
{
    match split_once_exec(s, 'e') {
        Some((m, x)) => (m, Some(x)),
        None => match split_once_exec(s, 'E') {
            Some((m, x)) => (m, Some(x)),
            None => {
                let c = copy_range(s, 0, s.len());
                assert(s@.subrange(0, s@.len() as int) == s@);
                (c, None)
            },
        },
    }
}

#[verifier::spinoff_prover]
#[verifier::rlimit(60)]
fn finite_form_exec(s: &Vec<char>) -> (r: Option<(Vec<char>, usize, bool, Vec<char>)>)
    ensures
        match r {
            Some((digits, flen, eneg, ed)) => {
                &&& all_digits(digits@)
                &&& all_digits(ed@)
                &&& flen <= digits@.len()
                &&& finite_form(s@) == Some(
                    FloatForm::Finite { digits: digits@, scale: signed_value(eneg, ed@) - flen },
                )
            },
            None => finite_form(s@) is None,
        },
{
    let (mant, xs) = exponent_split_exec(s);
    let exp = match xs {
        Some(x) => exponent_parts_exec(&x),
        None => Some((false, Vec::new())),
    };
    let (eneg, ed) = match exp {
        Some(p) => p,
        None => {
            return None;
        },
    };
    let (ip, fp) = match mantissa_parts_exec(&mant) {
        Some(p) => p,
        None => {
            return None;
        },
    };
    let flen = fp.len();
    let mut digits = ip;
    append(&mut digits, &fp);
    Some((digits, flen, eneg, ed))
}

/// Reads an unsigned float literal: its kind and, for a finite one, its
/// digits, its number of fraction digits and its exponent's sign and digits.
fn float_form_exec(s: &Vec<char>) -> (r: (FloatKind, Vec<char>, usize, bool, Vec<char>))
    ensures
        r.0 is Invalid ==> float_form(s@) is None,
        r.0 is Infinite ==> float_form(s@) == Some(FloatForm::Infinite),
        r.0 is NotANumber ==> float_form(s@) == Some(FloatForm::NotANumber),
        r.0 is Finite ==> {
            &&& all_digits(r.1@)
            &&& all_digits(r.4@)
            &&& r.2 <= r.1@.len()
            &&& float_form(s@) == Some(
                FloatForm::Finite { digits: r.1@, scale: signed_value(r.3, r.4@) - r.2 },
            )
        },
{
    let low = ascii_lower_exec(s);
    if eq_str(&low, "inf") || eq_str(&low, "infinity") {
        return (FloatKind::Infinite, Vec::new(), 0, false, Vec::new());
    }
    if eq_str(&low, "nan") {
        return (FloatKind::NotANumber, Vec::new(), 0, false, Vec::new());
    }
    match finite_form_exec(s) {
        Some((digits, flen, eneg, ed)) => (FloatKind::Finite, digits, flen, eneg, ed),
        None => (FloatKind::Invalid, Vec::new(), 0, false, Vec::new()),
    }
}

/// The value of a digit string, capped at `2^100`.
fn capped_digits_value(ip: &Vec<char>) -> (acc: u128)
    requires
        all_digits(ip@),
    ensures
        acc == (if digits_value(ip@) >= 0x10_0000_0000_0000_0000_0000_0000 {
            0x10_0000_0000_0000_0000_0000_0000
        } else {
            digits_value(ip@)
        }),
{
    let cap: u128 = 0x10_0000_0000_0000_0000_0000_0000;
    let mut acc: u128 = 0;
    let mut i: usize = 0;
    assert(ip@.take(0) =~= Seq::<char>::empty());
    while i < ip.len()
        invariant
            i <= ip@.len(),
            all_digits(ip@),
            cap == 0x10_0000_0000_0000_0000_0000_0000,
            acc == (if digits_value(ip@.take(i as int)) >= cap {
                cap as nat
            } else {
                digits_value(ip@.take(i as int))
            }),
        decreases ip@.len() - i,
    {
        let ghost pre = ip@.take(i as int);
        let ghost now = ip@.take(i + 1);
        assert(now.drop_last() =~= pre);
        assert(now.last() == ip@[i as int]);
        assert(is_digit(ip@[i as int]));
        let dv: u128 = (ip[i] as u32 - '0' as u32) as u128;
        assert(digits_value(now) == digits_value(pre) * 10 + dv);
        let next = acc * 10 + dv;
        acc = if next >= cap { cap } else { next };
        i = i + 1;
    }
    assert(ip@.take(ip@.len() as int) =~= ip@);
    acc
}

/// Rounds `(integer . fraction) * num / den` half up, saturating at
/// `u64::MAX`.
fn round_scaled_exec(ip: &Vec<char>, fp: &Vec<char>, num: u64, den: u64) -> (r: u64)
    requires
        all_digits(ip@),
        all_digits(fp@),
        (num == 1 && den == 1024) || (den == 1 && 1 <= num <= 1073741824),
    ensures
        ({
            let d = pow10(fp@.len());
            let n = digits_value(ip@) * d + digits_value(fp@);
            let x = (2 * n * num + d * den) / (2 * d * den);
            r as int == if x > u64::MAX { u64::MAX as int } else { x as int }
        }),
{
    let ghost d = pow10(fp@.len());
    let ghost f = digits_value(fp@);
    let ghost iv = digits_value(ip@);
    proof {
        lemma_pow10_pos(fp@.len());
        lemma_digits_lt_pow10(fp@);
    }
    let cap: u128 = 0x10_0000_0000_0000_0000_0000_0000;
    let acc = capped_digits_value(ip);
    let ghost spec_r = (2 * (iv * d + f) * num + d * den) / (2 * d * den);
    if den == 1024 {
        proof {
            lemma_round_kibi(iv, f, d);
            assert(2 * (iv * d + f) * 1 == 2 * (iv * d + f));
            assert(d * 1024 == 1024 * d);
            assert(2 * d * 1024 == 2048 * d);
        }
        assert(spec_r == (iv + 512) / 1024);
        if acc == cap {
            return u64::MAX;
        }
        let r = (acc + 512) / 1024;
        if r > u64::MAX as u128 {
            u64::MAX
        } else {
            r as u64
        }
    } else {
        proof {
            lemma_round_scaled(iv, f, d, num as nat);
            assert(d * 1 == d);
            assert(2 * d * 1 == 2 * d);
        }
        let ghost rest = ((2 * f * (num as nat)) / d + 1) / 2;
        assert(spec_r == iv * num + rest);
        if acc > u64::MAX as u128 {
            assert(iv * num >= iv) by (nonlinear_arith)
                requires
                    num >= 1,
            ;
            return u64::MAX;
        }
        let k: u64 = 2 * num;
        let c = carry_exec(fp, k);
        proof {
            lemma_carry(fp@, k as nat);
            assert(f * (k as nat) == 2 * f * num) by (nonlinear_arith)
                requires
                    k == 2 * num,
            ;
        }
        assert(c as nat == (2 * f * (num as nat)) / d);
        assert(acc * num <= 0x1_0000_0000_0000_0000 * 0x1_0000_0000) by (nonlinear_arith)
            requires
                acc <= u64::MAX,
                num <= 1073741824,
        ;
        let r: u128 = acc * (num as u128) + ((c as u128) + 1) / 2;
        if r > u64::MAX as u128 {
            u64::MAX
        } else {
            r as u64
        }
    }
}

fn zeros_exec(n: usize) -> (out: Vec<char>)
    ensures
        out@ == zeros(n as nat),
{
    let mut out: Vec<char> = Vec::new();
    let mut i: usize = 0;
    while i < n
        invariant
            i <= n,
            out@ == zeros(i as nat),
        decreases n - i,
    {
        out.push('0');
        i = i + 1;
        assert(out@ =~= zeros(i as nat));
    }
    out
}

/// `round_scaled_exec` stated through `rounded_u64`.
fn round_fraction_exec(ip: &Vec<char>, fp: &Vec<char>, num: u64, den: u64) -> (r: u64)
    requires
        all_digits(ip@),
        all_digits(fp@),
        (num == 1 && den == 1024) || (den == 1 && 1 <= num <= 1073741824),
    ensures
        r == rounded_u64(
            digits_value(ip@) * pow10(fp@.len()) + digits_value(fp@),
            pow10(fp@.len()),
            num as nat,
            den as nat,
        ),
{
    round_scaled_exec(ip, fp, num, den)
}

proof fn lemma_div_at_least(a: nat, b: nat, q: nat)
    requires
        b > 0,
        a >= b * q,
    ensures
        a / b >= q,
{
    lemma_fundamental_div_mod(a as int, b as int);
    let d = a / b;
    let m = a % b;
    if d < q {
        assert(b * d + b <= b * q) by (nonlinear_arith)
            requires
                d + 1 <= q,
                b > 0,
        ;
    }
}

proof fn lemma_div_below(a: nat, b: nat)
    requires
        a < b,
    ensures
        a / b == 0,
{
    lemma_fundamental_div_mod(a as int, b as int);
    let d = a / b;
    if d >= 1 {
        assert(b * d >= b) by (nonlinear_arith)
            requires
                d >= 1,
                b > 0,
        ;
    }
}

proof fn lemma_rounded_zero_mantissa(m: Seq<char>, sc: int, num: nat, den: nat)
    requires
        digits_value(m) == 0,
        den >= 1,
    ensures
        ({
            let f = scaled_fraction(m, sc);
            rounded_u64(f.0, f.1, num, den) == 0
        }),
{
    let f = scaled_fraction(m, sc);
    lemma_pow10_pos(if sc >= 0 { 0nat } else { (-sc) as nat });
    assert(f.0 == 0) by {
        if sc >= 0 {
            assert(0 * pow10(sc as nat) == 0);
        }
    }
    assert(f.1 >= 1);
    assert(2 * f.0 * num + f.1 * den == f.1 * den) by (nonlinear_arith)
        requires
            f.0 == 0,
    ;
    assert(f.1 * den < 2 * f.1 * den) by (nonlinear_arith)
        requires
            f.1 >= 1,
            den >= 1,
    ;
    lemma_div_below(f.1 * den, 2 * f.1 * den);
}

#[verifier::spinoff_prover]
proof fn lemma_rounded_saturates(m: Seq<char>, sc: int, num: nat, den: nat)
    requires
        digits_value(m) >= 1,
        sc >= 31,
        1 <= num,
        1 <= den <= 1024,
    ensures
        ({
            let f = scaled_fraction(m, sc);
            rounded_u64(f.0, f.1, num, den) == u64::MAX
        }),
{
    let n = digits_value(m);
    let f = scaled_fraction(m, sc);
    lemma_pow10_mono(31, sc as nat);
    reveal_with_fuel(pow10, 32);
    assert(pow10(31) == 10000000000000000000000000000000nat);
    let p = pow10(sc as nat);
    assert(f.0 == n * p && f.1 == 1);
    assert(n * p >= p) by (nonlinear_arith)
        requires
            n >= 1,
    ;
    let a = 2 * f.0 * num + f.1 * den;
    let b = 2 * f.1 * den;
    assert(2 * f.0 * num >= 2 * f.0) by (nonlinear_arith)
        requires
            num >= 1,
    ;
    assert(b == 2 * den) by (nonlinear_arith)
        requires
            f.1 == 1,
            b == 2 * f.1 * den,
    ;
    assert(b * 0x1_0000_0000_0000_0000 <= 2048 * 0x1_0000_0000_0000_0000) by (nonlinear_arith)
        requires
            b <= 2048,
    ;
    assert(a >= b * 0x1_0000_0000_0000_0000);
    lemma_div_at_least(a, b, 0x1_0000_0000_0000_0000);
}

#[verifier::spinoff_prover]
proof fn lemma_rounded_vanishes(m: Seq<char>, sc: int, num: nat, den: nat)
    requires
        all_digits(m),
        -sc > m.len() + 11,
        num <= 1073741824,
        den >= 1,
    ensures
        ({
            let f = scaled_fraction(m, sc);
            rounded_u64(f.0, f.1, num, den) == 0
        }),
{
    let n = digits_value(m);
    let kt = (-sc) as nat;
    let f = scaled_fraction(m, sc);
    assert(f == (n, pow10(kt)));
    lemma_digits_lt_pow10(m);
    let pm = pow10(m.len());
    lemma_pow10_add(m.len(), 12);
    lemma_pow10_mono(m.len() + 12, kt);
    reveal_with_fuel(pow10, 13);
    assert(pow10(12) == 1000000000000nat);
    let d = pow10(kt);
    assert(d >= pm * 1000000000000);
    assert(2 * n * num < d * den) by (nonlinear_arith)
        requires
            n < pm,
            num <= 1073741824,
            d >= pm * 1000000000000,
            den >= 1,
    ;
    assert(2 * n * num + d * den < 2 * d * den) by (nonlinear_arith)
        requires
            2 * n * num < d * den,
    ;
    lemma_div_below(2 * n * num + d * den, 2 * d * den);
}

/// `digits_value(m) * 10^(e - flen)` times `num / den`, rounded half up and
/// saturated, where `e` is the exponent with sign `eneg` and digits `ed`.
#[verifier::spinoff_prover]
#[verifier::rlimit(60)]
fn scaled_value_exec(m: &Vec<char>, flen: usize, eneg: bool, ed: &Vec<char>, num: u64, den: u64) -> (r: u64)
    requires
        all_digits(m@),
        all_digits(ed@),
        flen <= m@.len(),
        (num == 1 && den == 1024) || (den == 1 && 1 <= num <= 1073741824),
    ensures
        ({
            let f = scaled_fraction(m@, signed_value(eneg, ed@) - flen);
            r == rounded_u64(f.0, f.1, num as nat, den as nat)
        }),
{
    let cap: u128 = 0x10_0000_0000_0000_0000_0000_0000;
    let ghost n = digits_value(m@);
    let ghost sc = signed_value(eneg, ed@) - flen;
    let ghost f = scaled_fraction(m@, sc);
    proof {
        lemma_pow10_pos(if sc >= 0 { 0nat } else { (-sc) as nat });
        assert(f.1 >= 1);
    }
    let mv = capped_digits_value(m);
    if mv == 0 {
        proof {
            lemma_rounded_zero_mantissa(m@, sc, num as nat, den as nat);
        }
        return 0;
    }
    let em = capped_digits_value(ed);
    let fl: u128 = flen as u128;
    let lm: u128 = m.len() as u128;
    if !eneg && em >= fl {
        let t: u128 = em - fl;
        if t > 30 {
            proof {
                lemma_rounded_saturates(m@, sc, num as nat, den as nat);
            }
            return u64::MAX;
        }
        let tt = t as usize;
        let z = zeros_exec(tt);
        let mut ip2 = copy_range(m, 0, m.len());
        assert(m@.subrange(0, m@.len() as int) == m@);
        append(&mut ip2, &z);
        let empty: Vec<char> = Vec::new();
        proof {
            assert(em == digits_value(ed@));
            assert(sc == t);
            lemma_zeros(tt as nat);
            lemma_digits_concat(m@, zeros(tt as nat));
            assert(all_digits(ip2@));
            assert(pow10(0) == 1);
            assert(digits_value(empty@) == 0);
            assert(digits_value(ip2@) == n * pow10(tt as nat));
            assert(digits_value(ip2@) * 1 + 0 == f.0);
        }
        return round_fraction_exec(&ip2, &empty, num, den);
    }
    let k: u128 = if eneg { fl + em } else { fl - em };
    if k > lm + 11 {
        proof {
            assert(eneg);
            assert((-sc) as nat >= k);
            lemma_rounded_vanishes(m@, sc, num as nat, den as nat);
        }
        return 0;
    }
    proof {
        assert(em == digits_value(ed@));
        assert(sc == -(k as int));
    }
    if k <= lm {
        let kk = k as usize;
        let cut = m.len() - kk;
        let ip2 = copy_range(m, 0, cut);
        let fp2 = copy_range(m, cut, m.len());
        proof {
            assert(m@ =~= ip2@ + fp2@);
            lemma_digits_concat(ip2@, fp2@);
            assert(all_digits(ip2@));
            assert(all_digits(fp2@));
            assert(fp2@.len() == kk);
            if kk == 0 {
                assert(pow10(0) == 1);
                assert(digits_value(fp2@) == 0);
                assert(f == (n * pow10(0), 1nat));
                assert(digits_value(ip2@) * 1 + 0 == n * 1);
            } else {
                assert(f == (n, pow10(kk as nat)));
            }
        }
        round_fraction_exec(&ip2, &fp2, num, den)
    } else {
        let extra = (k - lm) as usize;
        let z = zeros_exec(extra);
        let mut fp2 = z;
        append(&mut fp2, m);
        let empty: Vec<char> = Vec::new();
        proof {
            lemma_zeros(extra as nat);
            lemma_digits_concat(zeros(extra as nat), m@);
            assert(all_digits(fp2@));
            assert(digits_value(fp2@) == n);
            assert(fp2@.len() == k);
            assert(digits_value(empty@) == 0);
            assert(f == (n, pow10(k as nat)));
            assert(0 * pow10(k as nat) + n == n);
        }
        round_fraction_exec(&empty, &fp2, num, den)
    }
}

#[verifier::rlimit(40)]
pub fn tres_value_chars(raw: &Vec<char>) -> (r: Option<u64>)
    ensures
        r == tres_value_of(raw@),
{
    reveal(tres_value_of);
    let v = trim_exec(raw);
    let n = v.len();
    if n == 0 {
        return None;
    }
    let last = v[n - 1];
    let is_unit = ('A' <= last && last <= 'Z') || ('a' <= last && last <= 'z');
    let number = if is_unit { copy_range(&v, 0, n - 1) } else { copy_range(&v, 0, n) };
    let unit = if is_unit { Some(last) } else { None };
    assert(v@.subrange(0, n as int) == v@);
    assert(v@.subrange(0, n - 1) == v@.drop_last());
    assert(is_unit == is_ascii_alpha(v@.last()));
    assert(number@ == (if is_ascii_alpha(v@.last()) { v@.drop_last() } else { v@ }));
    assert(unit == (if is_ascii_alpha(v@.last()) { Some(v@.last()) } else { None }));
    let m = number.len();
    let neg = m > 0 && number[0] == '-';
    let start: usize = if m > 0 && (number[0] == '-' || number[0] == '+') { 1 } else { 0 };
    let body = copy_range(&number, start, m);
    assert(body@ == (if number@.len() > 0 && (number@[0] == '+' || number@[0] == '-') {
        number@.drop_first()
    } else {
        number@
    }));
    let (kind, digits, flen, eneg, ed) = float_form_exec(&body);
    match kind {
        FloatKind::Invalid => None,
        FloatKind::NotANumber => Some(0),
        FloatKind::Infinite => Some(if neg { 0 } else { u64::MAX }),
        FloatKind::Finite => {
            if neg {
                Some(0)
            } else {
                let (num, den) = unit_scale_exec(unit);
                assert(unit_scale(unit) == (num as nat, den as nat));
                Some(scaled_value_exec(&digits, flen, eneg, &ed, num, den))
            }
        },
    }
}

/// Reads a TRES quantity in MiB.
pub fn parse_tres_value(raw: &str) -> (r: Option<u64>)
    ensures
        r == tres_value_of(raw@),
{
    let v = chars_of(raw);
    tres_value_chars(&v)
}


/// The entries of comma-separated `key=value` items whose value reads as a
/// TRES quantity; a later item overrides an earlier one with the same key.
pub open spec fn resource_entries(items: Seq<Seq<char>>) -> Map<Seq<char>, u64>
    decreases items.len(),
{
    if items.len() == 0 {
        Map::empty()
    } else {
        let m = resource_entries(items.drop_last());
        match split_once(items.last(), '=') {
            Some((k, v)) => match tres_value_of(v) {
                Some(x) => m.insert(k, x),
                None => m,
            },
            None => m,
        }
    }
}

/// A TRES list such as `cpu=104,mem=1030400M,gres/gpu=16` as a map in MiB.
pub open spec fn resource_map_of(raw: Seq<char>) -> Map<Seq<char>, u64> {
    resource_entries(split_on(raw, ','))
}

pub fn resource_map_chars(raw: &Vec<char>) -> (m: StrMap<u64>)
    ensures
        m.wf(),
        m@ == resource_map_of(raw@),
{
    let items = split_exec(raw, ',');
    let mut m: StrMap<u64> = StrMap::new();
    let mut i: usize = 0;
    while i < items.len()
        invariant
            i <= items@.len(),
            views(items@) == split_on(raw@, ','),
            m.wf(),
            m@ == resource_entries(views(items@).take(i as int)),
        decreases items@.len() - i,
    {
        let ghost now = views(items@).take(i + 1);
        proof {
            assert(now.drop_last() =~= views(items@).take(i as int));
            assert(now.last() == items@[i as int]@);
        }
        match split_once_exec(&items[i], '=') {
            Some((k, v)) => {
                match tres_value_chars(&v) {
                    Some(x) => {
                        m.insert(k, x);
                    },
                    None => {},
                }
            },
            None => {},
        }
        i = i + 1;
    }
    assert(views(items@).take(items@.len() as int) =~= views(items@));
    m
}

/// Reads a TRES list into a map of quantities in MiB.
pub fn parse_resource_map(raw: &str) -> (m: StrMap<u64>)
    ensures
        m.wf(),
        m@ == resource_map_of(raw@),
{
    let v = chars_of(raw);
    resource_map_chars(&v)
}

/// The state of the `key=value` reader: the entries so far and the entry
/// still being read.
pub open spec fn kv_step(
    st: (Map<Seq<char>, Seq<char>>, Option<(Seq<char>, Seq<char>)>),
    tok: Seq<char>,
) -> (Map<Seq<char>, Seq<char>>, Option<(Seq<char>, Seq<char>)>) {
    match split_once(tok, '=') {
        Some((k, v)) => {
            let m = match st.1 {
                Some((ck, cv)) => st.0.insert(ck, trim(cv)),
                None => st.0,
            };
            (m, Some((k, v)))
        },
        None => match st.1 {
            Some((ck, cv)) => (
                st.0,
                Some((ck, if cv.len() > 0 { cv + " "@ + tok } else { cv + tok })),
            ),
            None => st,
        },
    }
}

pub open spec fn kv_fold(toks: Seq<Seq<char>>) -> (
    Map<Seq<char>, Seq<char>>,
    Option<(Seq<char>, Seq<char>)>,
)
    decreases toks.len(),
{
    if toks.len() == 0 {
        (Map::empty(), None)
    } else {
        kv_step(kv_fold(toks.drop_last()), toks.last())
    }
}

/// The fields of one `scontrol show -o` line: each `Key=value` token starts
/// a field, and tokens without `=` continue the value of the field before
/// them, joined by single spaces.
pub open spec fn key_values_of(raw: Seq<char>) -> Map<Seq<char>, Seq<char>> {
    let st = kv_fold(words(raw));
    match st.1 {
        Some((k, v)) => st.0.insert(k, trim(v)),
        None => st.0,
    }
}

/// The views of the values of a map of character vectors.
pub open spec fn value_views(m: Map<Seq<char>, Vec<char>>) -> Map<Seq<char>, Seq<char>> {
    m.map_values(|v: Vec<char>| v@)
}

pub fn parse_key_value_line(raw: &Vec<char>) -> (m: StrMap<Vec<char>>)
    ensures
        m.wf(),
        value_views(m@) == key_values_of(raw@),
{
    let toks = words_exec(raw);
    let mut m: StrMap<Vec<char>> = StrMap::new();
    let mut current: Option<(Vec<char>, Vec<char>)> = None;
    let mut i: usize = 0;
    assert(value_views(m@) =~= Map::<Seq<char>, Seq<char>>::empty());
    while i < toks.len()
        invariant
            i <= toks@.len(),
            views(toks@) == words(raw@),
            m.wf(),
            kv_fold(views(toks@).take(i as int)) == (value_views(m@), match current {
                Some((k, v)) => Some((k@, v@)),
                None => None::<(Seq<char>, Seq<char>)>,
            }),
        decreases toks@.len() - i,
    {
        let ghost now = views(toks@).take(i + 1);
        proof {
            assert(now.drop_last() =~= views(toks@).take(i as int));
            assert(now.last() == toks@[i as int]@);
        }
        let tok = &toks[i];
        match split_once_exec(tok, '=') {
            Some((k, v)) => {
                match current {
                    Some((ck, cv)) => {
                        let t = trim_exec(&cv);
                        let ghost before = m@;
                        m.insert(ck, t);
                        assert(value_views(m@) =~= value_views(before).insert(ck@, t@));
                    },
                    None => {},
                }
                current = Some((k, v));
            },
            None => {
                match current {
                    Some((ck, cv)) => {
                        let mut cv2 = cv;
                        if cv2.len() > 0 {
                            cv2.push(' ');
                            proof {
                                reveal_strlit(" ");
                            }
                        }
                        append(&mut cv2, tok);
                        assert(cv2@ == (if cv@.len() > 0 {
                            cv@ + " "@ + tok@
                        } else {
                            cv@ + tok@
                        }));
                        current = Some((ck, cv2));
                    },
                    None => {
                        current = None;
                    },
                }
            },
        }
        i = i + 1;
    }
    assert(views(toks@).take(toks@.len() as int) =~= views(toks@));
    match current {
        Some((k, v)) => {
            let t = trim_exec(&v);
            let ghost before = m@;
            m.insert(k, t);
            assert(value_views(m@) =~= value_views(before).insert(k@, t@));
        },
        None => {},
    }
    m
}


/// The note for a line that has the wrong number of fields.
pub open spec fn ignored_line_note(prefix: Seq<char>, line_no: nat, fields: nat) -> Seq<char> {
    prefix + dec(line_no) + " with "@ + dec(fields) + " fields"@
}

fn ignored_line_note_exec(prefix: &str, line_no: usize, fields: usize) -> (s: String)
    ensures
        s@ == ignored_line_note(prefix@, line_no as nat, fields as nat),
{
    let mut out = chars_of(prefix);
    push_dec(&mut out, line_no as u64);
    append_str(&mut out, " with ");
    push_dec(&mut out, fields as u64);
    append_str(&mut out, " fields");
    string_of(&out)
}

/// The GPU count of an optional GRES field.
pub open spec fn opt_gpu_count(g: Option<Seq<char>>) -> Option<u32> {
    match g {
        Some(x) => gpu_count_of(x),
        None => None,
    }
}

pub open spec fn opt_gpu_fits(g: Option<Seq<char>>) -> bool {
    match g {
        Some(x) => gpu_fits(x),
        None => true,
    }
}

/// The node record of the six `sinfo` fields
/// `partition, state, name, cpus, memory, gres`.
pub open spec fn node_of_fields(f: Seq<Seq<char>>) -> NodeView {
    NodeView {
        partition: normalize_partition_of(f[0]),
        state: normalize_node_state_of(f[1]),
        node_name: trim(f[2]),
        cpus: parse_u32_of(f[3]),
        memory_mb: parse_u64_of(f[4]),
        gres: clean_optional_of(f[5]),
        gpus: opt_gpu_count(clean_optional_of(f[5])),
    }
}

/// Whether counting the GPUs of a six-field node line stays within `u32`.
pub open spec fn node_fields_fit(f: Seq<Seq<char>>) -> bool {
    opt_gpu_fits(clean_optional_of(f[5]))
}

/// Records and notes from the `sinfo` lines: blank lines are skipped, lines
/// without six fields give a note, the others a node.
pub open spec fn nodes_fold(ls: Seq<Seq<char>>) -> (Seq<NodeView>, Seq<Seq<char>>)
    decreases ls.len(),
{
    if ls.len() == 0 {
        (Seq::empty(), Seq::empty())
    } else {
        let r = nodes_fold(ls.drop_last());
        let line = ls.last();
        let f = split_on(line, FIELD_SEP);
        if trim(line).len() == 0 {
            r
        } else if f.len() != 6 {
            (r.0, r.1.push(ignored_line_note("ignored sinfo node line "@, ls.len(), f.len())))
        } else {
            (r.0.push(node_of_fields(f)), r.1)
        }
    }
}

pub open spec fn parse_nodes_of(stdout: Seq<char>) -> (Seq<NodeView>, Seq<Seq<char>>) {
    nodes_fold(lines(stdout))
}

/// Whether every node line's GPU count stays within `u32`.
pub open spec fn nodes_fit(stdout: Seq<char>) -> bool {
    forall|i: int|
        0 <= i < lines(stdout).len() ==> {
            let f = #[trigger] split_on(lines(stdout)[i], FIELD_SEP);
            f.len() == 6 ==> node_fields_fit(f)
        }
}

fn opt_gpu_exec(g: &Option<Vec<char>>) -> (r: Option<u32>)
    requires
        opt_gpu_fits(match g {
            Some(v) => Some(v@),
            None => None,
        }),
    ensures
        r == opt_gpu_count(match g {
            Some(v) => Some(v@),
            None => None,
        }),
{
    match g {
        Some(v) => gpu_count_chars(v),
        None => None,
    }
}

fn node_from_fields(f: &Vec<Vec<char>>) -> (n: NodeRecord)
    requires
        f@.len() == 6,
        node_fields_fit(views(f@)),
    ensures
        n@ == node_of_fields(views(f@)),
{
    let gres = clean_optional(&f[5]);
    let gpus = opt_gpu_exec(&gres);
    let p = normalize_partition(&f[0]);
    let st = normalize_node_state(&f[1]);
    let name = trim_exec(&f[2]);
    NodeRecord {
        partition: string_of(&p),
        state: string_of(&st),
        node_name: string_of(&name),
        cpus: parse_u32(&f[3]),
        memory_mb: parse_u64(&f[4]),
        gpus,
        gres: crate::model::types::opt_string_of(&gres),
    }
}

pub fn parse_nodes_chars(stdout: &Vec<char>) -> (r: (Vec<NodeRecord>, Vec<String>))
    requires
        nodes_fit(stdout@),
    ensures
        (node_views(r.0@), string_views(r.1@)) == parse_nodes_of(stdout@),
{
    let ls = lines_exec(stdout);
    let mut nodes: Vec<NodeRecord> = Vec::new();
    let mut notes: Vec<String> = Vec::new();
    let mut i: usize = 0;
    while i < ls.len()
        invariant
            i <= ls@.len(),
            views(ls@) == lines(stdout@),
            nodes_fit(stdout@),
            (node_views(nodes@), string_views(notes@)) == nodes_fold(views(ls@).take(i as int)),
        decreases ls@.len() - i,
    {
        let ghost now = views(ls@).take(i + 1);
        proof {
            assert(now.drop_last() =~= views(ls@).take(i as int));
            assert(now.last() == ls@[i as int]@);
            assert(now.len() == i + 1);
        }
        let line = &ls[i];
        let t = trim_exec(line);
        if t.len() == 0 {
            i = i + 1;
            continue;
        }
        let fields = split_exec(line, FIELD_SEP);
        if fields.len() != 6 {
            let ghost before = notes@;
            notes.push(ignored_line_note_exec("ignored sinfo node line ", i + 1, fields.len()));
            assert(string_views(notes@) =~= string_views(before).push(
                ignored_line_note("ignored sinfo node line "@, (i + 1) as nat, fields@.len()),
            ));
            i = i + 1;
            continue;
        }
        proof {
            assert(split_on(lines(stdout@)[i as int], FIELD_SEP) == views(fields@));
        }
        let ghost before = nodes@;
        nodes.push(node_from_fields(&fields));
        assert(node_views(nodes@) =~= node_views(before).push(node_of_fields(views(fields@))));
        i = i + 1;
    }
    assert(views(ls@).take(ls@.len() as int) =~= views(ls@));
    (nodes, notes)
}

/// Reads `sinfo -N` lines of six fields separated by U+001F.
pub fn parse_nodes(stdout: &str) -> (r: (Vec<NodeRecord>, Vec<String>))
    requires
        nodes_fit(stdout@),
    ensures
        (node_views(r.0@), string_views(r.1@)) == parse_nodes_of(stdout@),
{
    let v = chars_of(stdout);
    parse_nodes_chars(&v)
}


/// Whether a job state counts as active: running, pending, configuring,
/// completing or suspended.
pub open spec fn is_active_state(st: Seq<char>) -> bool {
    st == "RUNNING"@ || st == "PENDING"@ || st == "CONFIGURING"@ || st == "COMPLETING"@ || st
        == "SUSPENDED"@
}

pub open spec fn is_running_state(st: Seq<char>) -> bool {
    st == "RUNNING"@ || st == "COMPLETING"@
}

pub open spec fn is_pending_state(st: Seq<char>) -> bool {
    st == "PENDING"@ || st == "CONFIGURING"@
}

pub fn is_active_state_exec(st: &Vec<char>) -> (b: bool)
    ensures
        b == is_active_state(st@),
{
    eq_str(st, "RUNNING") || eq_str(st, "PENDING") || eq_str(st, "CONFIGURING") || eq_str(
        st,
        "COMPLETING",
    ) || eq_str(st, "SUSPENDED")
}

/// The job record of the fourteen `squeue` fields
/// `id, user, account, partition, name, state, runtime, limit, nodes, cpus,
/// gres, submit time, priority, placement or reason`.
pub open spec fn job_of_fields(f: Seq<Seq<char>>, current_user: Seq<char>) -> JobView {
    let state = uppercase_of(trim(f[5]));
    let gres = clean_optional_of(f[10]);
    JobView {
        job_id: trim(f[0]),
        user: trim(f[1]),
        account: clean_optional_of(f[2]),
        partition_raw: trim(f[3]),
        partitions: split_partitions_of(trim(f[3])),
        name: trim(f[4]),
        state: state,
        runtime_raw: trim(f[6]),
        time_limit_raw: trim(f[7]),
        runtime_secs: duration_of(f[6]),
        time_limit_secs: duration_of(f[7]),
        nodes: match parse_u32_of(f[8]) {
            Some(n) => n,
            None => 0,
        },
        cpus: parse_u32_of(f[9]),
        memory_mb: None,
        requested_gpus: opt_gpu_count(gres),
        gres: gres,
        req_tres: None,
        alloc_tres: None,
        location_or_reason: trim(f[13]),
        submit_time: clean_optional_of(f[11]),
        priority: parse_u64_of(f[12]),
        is_mine: trim(f[1]) == current_user,
        active: is_active_state(state),
        running: is_running_state(state),
        pending: is_pending_state(state),
    }
}

/// Whether the arithmetic on a fourteen-field job line stays within its
/// integer types.
pub open spec fn job_fields_fit(f: Seq<Seq<char>>) -> bool {
    &&& duration_fits(f[6])
    &&& duration_fits(f[7])
    &&& opt_gpu_fits(clean_optional_of(f[10]))
}

pub open spec fn jobs_fold(ls: Seq<Seq<char>>, current_user: Seq<char>) -> (
    Seq<JobView>,
    Seq<Seq<char>>,
)
    decreases ls.len(),
{
    if ls.len() == 0 {
        (Seq::empty(), Seq::empty())
    } else {
        let r = jobs_fold(ls.drop_last(), current_user);
        let line = ls.last();
        let f = split_on(line, FIELD_SEP);
        if trim(line).len() == 0 {
            r
        } else if f.len() != 14 {
            (r.0, r.1.push(ignored_line_note("ignored squeue line "@, ls.len(), f.len())))
        } else {
            (r.0.push(job_of_fields(f, current_user)), r.1)
        }
    }
}

/// Jobs and notes from `squeue` lines: blank lines are skipped, lines
/// without fourteen fields give a note, the others a job.
pub open spec fn parse_jobs_of(stdout: Seq<char>, current_user: Seq<char>) -> (
    Seq<JobView>,
    Seq<Seq<char>>,
) {
    jobs_fold(lines(stdout), current_user)
}

/// How many of `ls` are not blank.
pub open spec fn nonblank_count(ls: Seq<Seq<char>>) -> nat
    decreases ls.len(),
{
    if ls.len() == 0 {
        0
    } else {
        nonblank_count(ls.drop_last()) + if trim(ls.last()).len() > 0 {
            1nat
        } else {
            0nat
        }
    }
}

/// A non-blank `squeue` line with fourteen fields.
pub open spec fn is_job_line(l: Seq<char>) -> bool {
    trim(l).len() > 0 && split_on(l, FIELD_SEP).len() == 14
}

proof fn lemma_jobs_fold_per_line(ls: Seq<Seq<char>>, current_user: Seq<char>)
    ensures
        jobs_fold(ls, current_user).0.len() + jobs_fold(ls, current_user).1.len() == nonblank_count(ls),
        jobs_fold(ls, current_user).0 == ls.filter(|l: Seq<char>| is_job_line(l)).map_values(
            |l: Seq<char>| job_of_fields(split_on(l, FIELD_SEP), current_user),
        ),
    decreases ls.len(),
{
    reveal(Seq::filter);
    if ls.len() > 0 {
        lemma_jobs_fold_per_line(ls.drop_last(), current_user);
        let fl = ls.drop_last().filter(|l: Seq<char>| is_job_line(l));
        let g = |l: Seq<char>| job_of_fields(split_on(l, FIELD_SEP), current_user);
        if is_job_line(ls.last()) {
            assert(fl.push(ls.last()).map_values(g) =~= fl.map_values(g).push(g(ls.last())));
        }
    }
}

/// Reading `squeue` output gives one job or one note for each non-blank
/// line and nothing for a blank one; the jobs are, in order, those of the
/// lines with fourteen fields, each read from its own line.
pub proof fn lemma_jobs_per_line(stdout: Seq<char>, current_user: Seq<char>)
    ensures
        parse_jobs_of(stdout, current_user).0.len() + parse_jobs_of(stdout, current_user).1.len()
            == nonblank_count(lines(stdout)),
        parse_jobs_of(stdout, current_user).0 == lines(stdout).filter(|l: Seq<char>| is_job_line(l)).map_values(
            |l: Seq<char>| job_of_fields(split_on(l, FIELD_SEP), current_user),
        ),
{
    lemma_jobs_fold_per_line(lines(stdout), current_user);
}

pub open spec fn jobs_fit(stdout: Seq<char>) -> bool {
    forall|i: int|
        0 <= i < lines(stdout).len() ==> {
            let f = #[trigger] split_on(lines(stdout)[i], FIELD_SEP);
            f.len() == 14 ==> job_fields_fit(f)
        }
}

fn job_from_fields(f: &Vec<Vec<char>>, current_user: &Vec<char>) -> (j: JobRecord)
    requires
        f@.len() == 14,
        job_fields_fit(views(f@)),
    ensures
        j@ == job_of_fields(views(f@), current_user@),
{
    let partition_raw = trim_exec(&f[3]);
    let partitions = split_partitions(&partition_raw);
    let state = unicode_uppercase_exec(&trim_exec(&f[5]));
    let gres = clean_optional(&f[10]);
    let requested_gpus = opt_gpu_exec(&gres);
    let user = trim_exec(&f[1]);
    let is_mine = crate::text::eq_chars(&user, current_user);
    let active = is_active_state_exec(&state);
    let running = eq_str(&state, "RUNNING") || eq_str(&state, "COMPLETING");
    let pending = eq_str(&state, "PENDING") || eq_str(&state, "CONFIGURING");
    let nodes = match parse_u32(&f[8]) {
        Some(n) => n,
        None => 0,
    };
    JobRecord {
        job_id: string_of(&trim_exec(&f[0])),
        user: string_of(&user),
        account: clean_optional_string(&f[2]),
        partition_raw: string_of(&partition_raw),
        partitions,
        name: string_of(&trim_exec(&f[4])),
        state: string_of(&state),
        runtime_raw: string_of(&trim_exec(&f[6])),
        time_limit_raw: string_of(&trim_exec(&f[7])),
        runtime_secs: parse_duration_chars(&f[6]),
        time_limit_secs: parse_duration_chars(&f[7]),
        nodes,
        cpus: parse_u32(&f[9]),
        memory_mb: None,
        requested_gpus,
        gres: crate::model::types::opt_string_of(&gres),
        req_tres: None,
        alloc_tres: None,
        location_or_reason: string_of(&trim_exec(&f[13])),
        submit_time: clean_optional_string(&f[11]),
        priority: parse_u64(&f[12]),
        is_mine,
        active,
        running,
        pending,
    }
}

pub fn parse_jobs_chars(stdout: &Vec<char>, current_user: &Vec<char>) -> (r: (
    Vec<JobRecord>,
    Vec<String>,
))
    requires
        jobs_fit(stdout@),
    ensures
        (job_views(r.0@), string_views(r.1@)) == parse_jobs_of(stdout@, current_user@),
{
    let ls = lines_exec(stdout);
    let mut jobs: Vec<JobRecord> = Vec::new();
    let mut notes: Vec<String> = Vec::new();
    let mut i: usize = 0;
    while i < ls.len()
        invariant
            i <= ls@.len(),
            views(ls@) == lines(stdout@),
            jobs_fit(stdout@),
            (job_views(jobs@), string_views(notes@)) == jobs_fold(
                views(ls@).take(i as int),
                current_user@,
            ),
        decreases ls@.len() - i,
    {
        let ghost now = views(ls@).take(i + 1);
        proof {
            assert(now.drop_last() =~= views(ls@).take(i as int));
            assert(now.last() == ls@[i as int]@);
            assert(now.len() == i + 1);
        }
        let line = &ls[i];
        let t = trim_exec(line);
        if t.len() == 0 {
            i = i + 1;
            continue;
        }
        let fields = split_exec(line, FIELD_SEP);
        if fields.len() != 14 {
            let ghost before = notes@;
            notes.push(ignored_line_note_exec("ignored squeue line ", i + 1, fields.len()));
            assert(string_views(notes@) =~= string_views(before).push(
                ignored_line_note("ignored squeue line "@, (i + 1) as nat, fields@.len()),
            ));
            i = i + 1;
            continue;
        }
        proof {
            assert(split_on(lines(stdout@)[i as int], FIELD_SEP) == views(fields@));
        }
        let ghost before = jobs@;
        jobs.push(job_from_fields(&fields, current_user));
        assert(job_views(jobs@) =~= job_views(before).push(
            job_of_fields(views(fields@), current_user@),
        ));
        i = i + 1;
    }
    assert(views(ls@).take(ls@.len() as int) =~= views(ls@));
    (jobs, notes)
}

/// Reads `squeue` lines of fourteen fields separated by U+001F; a job is
/// the current user's when its user field is `current_user`.
pub fn parse_jobs(stdout: &str, current_user: &str) -> (r: (Vec<JobRecord>, Vec<String>))
    requires
        jobs_fit(stdout@),
    ensures
        (job_views(r.0@), string_views(r.1@)) == parse_jobs_of(stdout@, current_user@),
{
    let v = chars_of(stdout);
    let u = chars_of(current_user);
    parse_jobs_chars(&v, &u)
}


/// The value under `k`, if any.
pub open spec fn mget<V>(m: Map<Seq<char>, V>, k: Seq<char>) -> Option<V> {
    if m.dom().contains(k) {
        Some(m[k])
    } else {
        None
    }
}

/// The first of two lookups that answers.
pub open spec fn or_else<V>(a: Option<V>, b: Option<V>) -> Option<V> {
    match a {
        Some(x) => Some(x),
        None => b,
    }
}

/// A quantity narrowed to `u32` as `value as u32` does.
pub open spec fn narrow_u32(o: Option<u64>) -> Option<u32> {
    match o {
        Some(v) => Some(v as u32),
        None => None,
    }
}

/// The TRES map of an optional TRES string, empty when absent.
pub open spec fn opt_resource_map(o: Option<Seq<char>>) -> Map<Seq<char>, u64> {
    match o {
        Some(t) => resource_map_of(t),
        None => Map::empty(),
    }
}

/// The GPU quantity of a TRES map: `gres/gpu`, else `gpu`.
pub open spec fn tres_gpus(m: Map<Seq<char>, u64>) -> Option<u64> {
    or_else(mget(m, "gres/gpu"@), mget(m, "gpu"@))
}

/// The history row of the eleven `sacct` fields
/// `id, name, user, partition, state, exit code, elapsed, start, end,
/// AllocTRES, ReqTRES`.
pub open spec fn history_of_fields(f: Seq<Seq<char>>, current_user: Seq<char>) -> HistoryView {
    let alloc = clean_optional_of(f[9]);
    let am = opt_resource_map(alloc);
    HistoryView {
        job_id: trim(f[0]),
        name: trim(f[1]),
        user: trim(f[2]),
        partition: clean_optional_of(f[3]),
        state: trim(f[4]),
        exit_code: trim(f[5]),
        elapsed_raw: trim(f[6]),
        elapsed_secs: duration_of(f[6]),
        start: clean_optional_of(f[7]),
        end: clean_optional_of(f[8]),
        alloc_tres: alloc,
        req_tres: clean_optional_of(f[10]),
        alloc_cpus: narrow_u32(mget(am, "cpu"@)),
        alloc_gpus: narrow_u32(tres_gpus(am)),
        alloc_mem_mb: mget(am, "mem"@),
        is_mine: trim(f[2]) == current_user,
    }
}

pub open spec fn history_fold(ls: Seq<Seq<char>>, current_user: Seq<char>) -> (
    Seq<HistoryView>,
    Seq<Seq<char>>,
)
    decreases ls.len(),
{
    if ls.len() == 0 {
        (Seq::empty(), Seq::empty())
    } else {
        let r = history_fold(ls.drop_last(), current_user);
        let line = ls.last();
        let f = split_on(line, '|');
        if trim(line).len() == 0 {
            r
        } else if f.len() != 11 {
            (r.0, r.1.push(ignored_line_note("ignored sacct line "@, ls.len(), f.len())))
        } else if contains_sub(trim(f[0]), "."@) {
            r
        } else {
            (r.0.push(history_of_fields(f, current_user)), r.1)
        }
    }
}

/// History rows and notes from `sacct -P` lines: blank lines are skipped,
/// lines without eleven fields give a note, job steps (ids with a `.`) are
/// left out, and the others give a row.
pub open spec fn parse_history_of(stdout: Seq<char>, current_user: Seq<char>) -> (
    Seq<HistoryView>,
    Seq<Seq<char>>,
) {
    history_fold(lines(stdout), current_user)
}

pub open spec fn history_fit(stdout: Seq<char>) -> bool {
    forall|i: int|
        0 <= i < lines(stdout).len() ==> {
            let f = #[trigger] split_on(lines(stdout)[i], '|');
            f.len() == 11 ==> duration_fits(f[6])
        }
}

fn opt_resource_map_exec(o: &Option<Vec<char>>) -> (m: StrMap<u64>)
    ensures
        m.wf(),
        m@ == opt_resource_map(match o {
            Some(v) => Some(v@),
            None => None,
        }),
{
    match o {
        Some(t) => resource_map_chars(t),
        None => StrMap::new(),
    }
}

fn get_u64(m: &StrMap<u64>, k: &str) -> (r: Option<u64>)
    requires
        m.wf(),
    ensures
        r == mget(m@, k@),
{
    match m.get_str(k) {
        Some(v) => Some(*v),
        None => None,
    }
}

fn tres_gpus_exec(m: &StrMap<u64>) -> (r: Option<u64>)
    requires
        m.wf(),
    ensures
        r == tres_gpus(m@),
{
    match get_u64(m, "gres/gpu") {
        Some(v) => Some(v),
        None => get_u64(m, "gpu"),
    }
}

fn narrow_u32_exec(o: Option<u64>) -> (r: Option<u32>)
    ensures
        r == narrow_u32(o),
{
    match o {
        Some(v) => Some(v as u32),
        None => None,
    }
}

fn history_from_fields(f: &Vec<Vec<char>>, current_user: &Vec<char>) -> (h: HistoryRecord)
    requires
        f@.len() == 11,
        duration_fits(f@[6]@),
    ensures
        h@ == history_of_fields(views(f@), current_user@),
{
    let alloc = clean_optional(&f[9]);
    let am = opt_resource_map_exec(&alloc);
    let user = trim_exec(&f[2]);
    HistoryRecord {
        job_id: string_of(&trim_exec(&f[0])),
        name: string_of(&trim_exec(&f[1])),
        user: string_of(&user),
        partition: clean_optional_string(&f[3]),
        state: string_of(&trim_exec(&f[4])),
        exit_code: string_of(&trim_exec(&f[5])),
        elapsed_raw: string_of(&trim_exec(&f[6])),
        elapsed_secs: parse_duration_chars(&f[6]),
        start: clean_optional_string(&f[7]),
        end: clean_optional_string(&f[8]),
        alloc_tres: crate::model::types::opt_string_of(&alloc),
        req_tres: clean_optional_string(&f[10]),
        alloc_cpus: narrow_u32_exec(get_u64(&am, "cpu")),
        alloc_gpus: narrow_u32_exec(tres_gpus_exec(&am)),
        alloc_mem_mb: get_u64(&am, "mem"),
        is_mine: crate::text::eq_chars(&user, current_user),
    }
}

pub fn parse_history_chars(stdout: &Vec<char>, current_user: &Vec<char>) -> (r: (
    Vec<HistoryRecord>,
    Vec<String>,
))
    requires
        history_fit(stdout@),
    ensures
        (history_views(r.0@), string_views(r.1@)) == parse_history_of(stdout@, current_user@),
{
    let ls = lines_exec(stdout);
    let mut rows: Vec<HistoryRecord> = Vec::new();
    let mut notes: Vec<String> = Vec::new();
    let mut i: usize = 0;
    while i < ls.len()
        invariant
            i <= ls@.len(),
            views(ls@) == lines(stdout@),
            history_fit(stdout@),
            (history_views(rows@), string_views(notes@)) == history_fold(
                views(ls@).take(i as int),
                current_user@,
            ),
        decreases ls@.len() - i,
    {
        let ghost now = views(ls@).take(i + 1);
        proof {
            assert(now.drop_last() =~= views(ls@).take(i as int));
            assert(now.last() == ls@[i as int]@);
            assert(now.len() == i + 1);
        }
        let line = &ls[i];
        let t = trim_exec(line);
        if t.len() == 0 {
            i = i + 1;
            continue;
        }
        let fields = split_exec(line, '|');
        if fields.len() != 11 {
            let ghost before = notes@;
            notes.push(ignored_line_note_exec("ignored sacct line ", i + 1, fields.len()));
            assert(string_views(notes@) =~= string_views(before).push(
                ignored_line_note("ignored sacct line "@, (i + 1) as nat, fields@.len()),
            ));
            i = i + 1;
            continue;
        }
        let id = trim_exec(&fields[0]);
        if contains_str(&id, ".") {
            i = i + 1;
            continue;
        }
        proof {
            assert(split_on(lines(stdout@)[i as int], '|') == views(fields@));
            assert(views(fields@)[6] == fields@[6]@);
        }
        let ghost before = rows@;
        rows.push(history_from_fields(&fields, current_user));
        assert(history_views(rows@) =~= history_views(before).push(
            history_of_fields(views(fields@), current_user@),
        ));
        i = i + 1;
    }
    assert(views(ls@).take(ls@.len() as int) =~= views(ls@));
    (rows, notes)
}

/// Reads `sacct -P -X` history lines of eleven `|`-separated fields.
pub fn parse_history(stdout: &str, current_user: &str) -> (r: (
    Vec<HistoryRecord>,
    Vec<String>,
))
    requires
        history_fit(stdout@),
    ensures
        (history_views(r.0@), string_views(r.1@)) == parse_history_of(stdout@, current_user@),
{
    let v = chars_of(stdout);
    let u = chars_of(current_user);
    parse_history_chars(&v, &u)
}


/// The `key=value` tokens as a map; a later token overrides an earlier one.
pub open spec fn token_map(toks: Seq<Seq<char>>) -> Map<Seq<char>, Seq<char>>
    decreases toks.len(),
{
    if toks.len() == 0 {
        Map::empty()
    } else {
        let m = token_map(toks.drop_last());
        match split_once(toks.last(), '=') {
            Some((k, v)) => m.insert(k, v),
            None => m,
        }
    }
}

/// The partition of one `scontrol show partition` block, when it names one.
pub open spec fn partition_of_block(values: Map<Seq<char>, Seq<char>>) -> Option<PartitionSpecView> {
    match mget(values, "PartitionName"@) {
        None => None,
        Some(name) => {
            let tres = match mget(values, "TRES"@) {
                Some(t) => t,
                None => Seq::empty(),
            };
            let tm = resource_map_of(tres);
            Some(PartitionSpecView {
                name: name,
                state: match mget(values, "State"@) {
                    Some(st) => st,
                    None => "UNKNOWN"@,
                },
                total_nodes: match mget(values, "TotalNodes"@) {
                    Some(v) => parse_u32_of(v),
                    None => None,
                },
                total_cpus: match mget(values, "TotalCPUs"@) {
                    Some(v) => parse_u64_of(v),
                    None => None,
                },
                total_mem_mb: mget(tm, "mem"@),
                total_gpus: tres_gpus(tm),
            })
        },
    }
}

pub open spec fn specs_fold(bs: Seq<Seq<char>>) -> (Seq<PartitionSpecView>, Seq<Seq<char>>)
    decreases bs.len(),
{
    if bs.len() == 0 {
        (Seq::empty(), Seq::empty())
    } else {
        let r = specs_fold(bs.drop_last());
        let block = trim(bs.last());
        if block.len() == 0 {
            r
        } else {
            match partition_of_block(token_map(words(block))) {
                Some(p) => (r.0.push(p), r.1),
                None => (r.0, r.1.push("ignored partition block without PartitionName"@)),
            }
        }
    }
}

/// Partitions and notes from `scontrol show partition`: blocks separated by
/// blank lines, each read as whitespace-separated `key=value` tokens; a
/// block without `PartitionName` gives a note.
pub open spec fn parse_partition_specs_of(stdout: Seq<char>) -> (
    Seq<PartitionSpecView>,
    Seq<Seq<char>>,
) {
    specs_fold(blocks(stdout))
}

fn token_map_exec(toks: &Vec<Vec<char>>) -> (m: StrMap<Vec<char>>)
    ensures
        m.wf(),
        value_views(m@) == token_map(views(toks@)),
{
    let mut m: StrMap<Vec<char>> = StrMap::new();
    let mut i: usize = 0;
    assert(value_views(m@) =~= Map::<Seq<char>, Seq<char>>::empty());
    while i < toks.len()
        invariant
            i <= toks@.len(),
            m.wf(),
            value_views(m@) == token_map(views(toks@).take(i as int)),
        decreases toks@.len() - i,
    {
        let ghost now = views(toks@).take(i + 1);
        proof {
            assert(now.drop_last() =~= views(toks@).take(i as int));
            assert(now.last() == toks@[i as int]@);
        }
        match split_once_exec(&toks[i], '=') {
            Some((k, v)) => {
                let ghost before = m@;
                m.insert(k, v);
                assert(value_views(m@) =~= value_views(before).insert(k@, v@));
            },
            None => {},
        }
        i = i + 1;
    }
    assert(views(toks@).take(toks@.len() as int) =~= views(toks@));
    m
}

fn get_chars(m: &StrMap<Vec<char>>, k: &str) -> (r: Option<Vec<char>>)
    requires
        m.wf(),
    ensures
        match r {
            Some(v) => mget(value_views(m@), k@) == Some(v@),
            None => mget(value_views(m@), k@) is None,
        },
{
    match m.get_str(k) {
        Some(v) => Some(v.clone()),
        None => None,
    }
}

fn get_string(m: &StrMap<Vec<char>>, k: &str) -> (r: Option<String>)
    requires
        m.wf(),
    ensures
        opt_view(r) == mget(value_views(m@), k@),
{
    match m.get_str(k) {
        Some(v) => Some(string_of(v)),
        None => None,
    }
}

fn get_u32_field(m: &StrMap<Vec<char>>, k: &str) -> (r: Option<u32>)
    requires
        m.wf(),
    ensures
        r == (match mget(value_views(m@), k@) {
            Some(v) => parse_u32_of(v),
            None => None,
        }),
{
    match m.get_str(k) {
        Some(v) => parse_u32(v),
        None => None,
    }
}

fn get_u64_field(m: &StrMap<Vec<char>>, k: &str) -> (r: Option<u64>)
    requires
        m.wf(),
    ensures
        r == (match mget(value_views(m@), k@) {
            Some(v) => parse_u64_of(v),
            None => None,
        }),
{
    match m.get_str(k) {
        Some(v) => parse_u64(v),
        None => None,
    }
}

fn partition_from_block(values: &StrMap<Vec<char>>) -> (r: Option<PartitionSpec>)
    requires
        values.wf(),
    ensures
        match r {
            Some(p) => partition_of_block(value_views(values@)) == Some(p@),
            None => partition_of_block(value_views(values@)) is None,
        },
{
    let name = match get_chars(values, "PartitionName") {
        Some(n) => n,
        None => {
            return None;
        },
    };
    let state = match get_chars(values, "State") {
        Some(st) => st,
        None => chars_of("UNKNOWN"),
    };
    let tres = match get_chars(values, "TRES") {
        Some(t) => t,
        None => Vec::new(),
    };
    let tm = resource_map_chars(&tres);
    Some(
        PartitionSpec {
            name: string_of(&name),
            state: string_of(&state),
            total_nodes: get_u32_field(values, "TotalNodes"),
            total_cpus: get_u64_field(values, "TotalCPUs"),
            total_mem_mb: get_u64(&tm, "mem"),
            total_gpus: tres_gpus_exec(&tm),
        },
    )
}

pub fn parse_partition_specs_chars(stdout: &Vec<char>) -> (r: (Vec<PartitionSpec>, Vec<String>))
    ensures
        (partition_spec_views(r.0@), string_views(r.1@)) == parse_partition_specs_of(stdout@),
{
    let bs = blocks_exec(stdout);
    let mut specs: Vec<PartitionSpec> = Vec::new();
    let mut notes: Vec<String> = Vec::new();
    let mut i: usize = 0;
    while i < bs.len()
        invariant
            i <= bs@.len(),
            views(bs@) == blocks(stdout@),
            (partition_spec_views(specs@), string_views(notes@)) == specs_fold(views(bs@).take(i as int)),
        decreases bs@.len() - i,
    {
        let ghost now = views(bs@).take(i + 1);
        proof {
            assert(now.drop_last() =~= views(bs@).take(i as int));
            assert(now.last() == bs@[i as int]@);
        }
        let block = trim_exec(&bs[i]);
        if block.len() == 0 {
            i = i + 1;
            continue;
        }
        let toks = words_exec(&block);
        let values = token_map_exec(&toks);
        match partition_from_block(&values) {
            Some(p) => {
                let ghost before = specs@;
                specs.push(p);
                assert(partition_spec_views(specs@) =~= partition_spec_views(before).push(p@));
            },
            None => {
                let ghost before = notes@;
                let note = String::from_str("ignored partition block without PartitionName");
                notes.push(note);
                assert(string_views(notes@) =~= string_views(before).push(note@));
            },
        }
        i = i + 1;
    }
    assert(views(bs@).take(bs@.len() as int) =~= views(bs@));
    (specs, notes)
}

/// Reads the blocks of `scontrol show partition`.
pub fn parse_partition_specs(stdout: &str) -> (r: (Vec<PartitionSpec>, Vec<String>))
    ensures
        (partition_spec_views(r.0@), string_views(r.1@)) == parse_partition_specs_of(stdout@),
{
    let v = chars_of(stdout);
    parse_partition_specs_chars(&v)
}


/// The text before the first `(`, as `split('(').next()` gives it.
pub open spec fn before_paren(v: Seq<char>) -> Seq<char> {
    split_on(v, '(')[0]
}

/// The text before the first `,`.
pub open spec fn before_comma(v: Seq<char>) -> Seq<char> {
    split_on(v, ',')[0]
}

pub open spec fn opt_u32_field(o: Option<Seq<char>>) -> Option<u32> {
    match o {
        Some(v) => parse_u32_of(v),
        None => None,
    }
}

pub open spec fn opt_u64_field(o: Option<Seq<char>>) -> Option<u64> {
    match o {
        Some(v) => parse_u64_of(v),
        None => None,
    }
}

/// The detail of a job from the fields of `scontrol show job -o`.
pub open spec fn job_detail_of_map(m: Map<Seq<char>, Seq<char>>, current_user: Seq<char>) -> JobDetailView {
    let user = match mget(m, "UserId"@) {
        Some(v) => Some(before_paren(v)),
        None => None,
    };
    let req_tres = mget(m, "TRES"@);
    let rm = opt_resource_map(req_tres);
    let tpn = mget(m, "TresPerNode"@);
    JobDetailView {
        job_id: m["JobId"@],
        name: mget(m, "JobName"@),
        user: user,
        account: mget(m, "Account"@),
        partition: mget(m, "Partition"@),
        state: mget(m, "JobState"@),
        reason: mget(m, "Reason"@),
        exit_code: mget(m, "ExitCode"@),
        nodes: opt_u32_field(mget(m, "NumNodes"@)),
        n_tasks: opt_u32_field(mget(m, "NumTasks"@)),
        cpus: opt_u32_field(mget(m, "NumCPUs"@)),
        memory_mb: mget(rm, "mem"@),
        requested_gpus: or_else(opt_gpu_count(tpn), narrow_u32(mget(rm, "gres/gpu"@))),
        gres: tpn,
        req_tres: req_tres,
        alloc_tres: None,
        runtime_raw: mget(m, "RunTime"@),
        time_limit_raw: mget(m, "TimeLimit"@),
        submit_time: mget(m, "SubmitTime"@),
        start_time: mget(m, "StartTime"@),
        end_time: mget(m, "EndTime"@),
        node_list: or_else(mget(m, "NodeList"@), mget(m, "ReqNodeList"@)),
        work_dir: mget(m, "WorkDir"@),
        command: mget(m, "Command"@),
        stdout_path: mget(m, "StdOut"@),
        stderr_path: mget(m, "StdErr"@),
        source_notes: Seq::empty(),
        active: match mget(m, "JobState"@) {
            Some(st) => is_active_state(st),
            None => false,
        },
        is_mine: user == Some(current_user),
    }
}

/// The detail of a job from `scontrol show job -o` output, or a note when
/// the output is empty or has no `JobId`.
pub open spec fn parse_scontrol_job_of(stdout: Seq<char>, current_user: Seq<char>) -> (
    Option<JobDetailView>,
    Seq<Seq<char>>,
) {
    let line = trim(stdout);
    if line.len() == 0 {
        (None, seq!["empty scontrol job output"@])
    } else {
        let m = key_values_of(line);
        if !m.dom().contains("JobId"@) {
            (None, seq!["missing JobId in scontrol show job output"@])
        } else {
            (Some(job_detail_of_map(m, current_user)), Seq::empty())
        }
    }
}

/// Whether counting the GPUs of `TresPerNode` stays within `u32`.
pub open spec fn scontrol_job_fits(stdout: Seq<char>) -> bool {
    opt_gpu_fits(mget(key_values_of(trim(stdout)), "TresPerNode"@))
}

pub open spec fn opt_detail_view(o: Option<JobDetail>) -> Option<JobDetailView> {
    match o {
        Some(d) => Some(d@),
        None => None,
    }
}

fn one_note(s: &str) -> (v: Vec<String>)
    ensures
        string_views(v@) == seq![s@],
{
    let mut v: Vec<String> = Vec::new();
    v.push(String::from_str(s));
    assert(string_views(v@) =~= seq![s@]);
    v
}

fn first_piece(v: &Vec<char>, c: char) -> (r: Vec<char>)
    ensures
        r@ == split_on(v@, c)[0],
{
    let pieces = split_exec(v, c);
    proof {
        crate::text::lemma_split_on_len(v@, c);
    }
    pieces[0].clone()
}

fn job_detail_from_map(m: &StrMap<Vec<char>>, current_user: &Vec<char>) -> (d: JobDetail)
    requires
        m.wf(),
        m@.dom().contains("JobId"@),
        opt_gpu_fits(mget(value_views(m@), "TresPerNode"@)),
    ensures
        d@ == job_detail_of_map(value_views(m@), current_user@),
{
    let job_id = match get_string(m, "JobId") {
        Some(j) => j,
        None => String::new(),
    };
    let user_v: Option<Vec<char>> = match m.get_str("UserId") {
        Some(v) => Some(first_piece(v, '(')),
        None => None,
    };
    let is_mine = match &user_v {
        Some(u) => crate::text::eq_chars(u, current_user),
        None => false,
    };
    let req_tres = get_chars(m, "TRES");
    let rm = opt_resource_map_exec(&req_tres);
    let tpn = get_chars(m, "TresPerNode");
    let gpus = match opt_gpu_exec(&tpn) {
        Some(g) => Some(g),
        None => narrow_u32_exec(get_u64(&rm, "gres/gpu")),
    };
    let active = match m.get_str("JobState") {
        Some(st) => is_active_state_exec(st),
        None => false,
    };
    let node_list = match get_string(m, "NodeList") {
        Some(n) => Some(n),
        None => get_string(m, "ReqNodeList"),
    };
    let d = JobDetail {
        job_id,
        name: get_string(m, "JobName"),
        user: crate::model::types::opt_string_of(&user_v),
        account: get_string(m, "Account"),
        partition: get_string(m, "Partition"),
        state: get_string(m, "JobState"),
        reason: get_string(m, "Reason"),
        exit_code: get_string(m, "ExitCode"),
        nodes: get_u32_field(m, "NumNodes"),
        n_tasks: get_u32_field(m, "NumTasks"),
        cpus: get_u32_field(m, "NumCPUs"),
        memory_mb: get_u64(&rm, "mem"),
        requested_gpus: gpus,
        gres: crate::model::types::opt_string_of(&tpn),
        req_tres: crate::model::types::opt_string_of(&req_tres),
        alloc_tres: None,
        runtime_raw: get_string(m, "RunTime"),
        time_limit_raw: get_string(m, "TimeLimit"),
        submit_time: get_string(m, "SubmitTime"),
        start_time: get_string(m, "StartTime"),
        end_time: get_string(m, "EndTime"),
        node_list,
        work_dir: get_string(m, "WorkDir"),
        command: get_string(m, "Command"),
        stdout_path: get_string(m, "StdOut"),
        stderr_path: get_string(m, "StdErr"),
        source_notes: Vec::new(),
        active,
        is_mine,
    };
    assert(string_views(d.source_notes@) =~= Seq::<Seq<char>>::empty());
    d
}

/// Reads one `scontrol show job -o` line.
pub fn parse_scontrol_job(stdout: &str, current_user: &str) -> (r: (
    Option<JobDetail>,
    Vec<String>,
))
    requires
        scontrol_job_fits(stdout@),
    ensures
        (opt_detail_view(r.0), string_views(r.1@)) == parse_scontrol_job_of(
            stdout@,
            current_user@,
        ),
{
    let v = chars_of(stdout);
    let u = chars_of(current_user);
    let line = trim_exec(&v);
    if line.len() == 0 {
        return (None, one_note("empty scontrol job output"));
    }
    let m = parse_key_value_line(&line);
    if m.get_str("JobId").is_none() {
        return (None, one_note("missing JobId in scontrol show job output"));
    }
    let d = job_detail_from_map(&m, &u);
    let notes: Vec<String> = Vec::new();
    assert(string_views(notes@) =~= Seq::<Seq<char>>::empty());
    (Some(d), notes)
}

/// The detail of a node from the fields of `scontrol show node -o`.
pub open spec fn node_detail_of_map(m: Map<Seq<char>, Seq<char>>) -> NodeDetailView {
    let cm = opt_resource_map(mget(m, "CfgTRES"@));
    let am = opt_resource_map(mget(m, "AllocTRES"@));
    NodeDetailView {
        node_name: m["NodeName"@],
        partition: match mget(m, "Partitions"@) {
            Some(v) => Some(before_comma(v)),
            None => None,
        },
        state: mget(m, "State"@),
        reason: mget(m, "Reason"@),
        cpu_alloc: opt_u32_field(mget(m, "CPUAlloc"@)),
        cpu_total: opt_u32_field(mget(m, "CPUTot"@)),
        mem_alloc_mb: opt_u64_field(mget(m, "AllocMem"@)),
        mem_total_mb: opt_u64_field(mget(m, "RealMemory"@)),
        gpu_alloc: narrow_u32(tres_gpus(am)),
        gpu_total: narrow_u32(tres_gpus(cm)),
        gres: mget(m, "Gres"@),
        alloc_tres: mget(m, "AllocTRES"@),
        cfg_tres: mget(m, "CfgTRES"@),
        source_notes: Seq::empty(),
    }
}

/// The detail of a node from `scontrol show node -o` output, or a note
/// when the output is empty or has no `NodeName`.
pub open spec fn parse_scontrol_node_of(stdout: Seq<char>) -> (
    Option<NodeDetailView>,
    Seq<Seq<char>>,
) {
    let line = trim(stdout);
    if line.len() == 0 {
        (None, seq!["empty scontrol node output"@])
    } else {
        let m = key_values_of(line);
        if !m.dom().contains("NodeName"@) {
            (None, seq!["missing NodeName in scontrol show node output"@])
        } else {
            (Some(node_detail_of_map(m)), Seq::empty())
        }
    }
}

pub open spec fn opt_node_detail_view(o: Option<NodeDetail>) -> Option<NodeDetailView> {
    match o {
        Some(d) => Some(d@),
        None => None,
    }
}

fn node_detail_from_map(m: &StrMap<Vec<char>>) -> (d: NodeDetail)
    requires
        m.wf(),
        m@.dom().contains("NodeName"@),
    ensures
        d@ == node_detail_of_map(value_views(m@)),
{
    let node_name = match get_string(m, "NodeName") {
        Some(n) => n,
        None => String::new(),
    };
    let cfg = get_chars(m, "CfgTRES");
    let alloc = get_chars(m, "AllocTRES");
    let cm = opt_resource_map_exec(&cfg);
    let am = opt_resource_map_exec(&alloc);
    let partition = match m.get_str("Partitions") {
        Some(v) => Some(string_of(&first_piece(v, ','))),
        None => None,
    };
    let d = NodeDetail {
        node_name,
        partition,
        state: get_string(m, "State"),
        reason: get_string(m, "Reason"),
        cpu_alloc: get_u32_field(m, "CPUAlloc"),
        cpu_total: get_u32_field(m, "CPUTot"),
        mem_alloc_mb: get_u64_field(m, "AllocMem"),
        mem_total_mb: get_u64_field(m, "RealMemory"),
        gpu_alloc: narrow_u32_exec(tres_gpus_exec(&am)),
        gpu_total: narrow_u32_exec(tres_gpus_exec(&cm)),
        gres: get_string(m, "Gres"),
        alloc_tres: crate::model::types::opt_string_of(&alloc),
        cfg_tres: crate::model::types::opt_string_of(&cfg),
        source_notes: Vec::new(),
    };
    assert(string_views(d.source_notes@) =~= Seq::<Seq<char>>::empty());
    d
}

/// Reads one `scontrol show node -o` line.
pub fn parse_scontrol_node(stdout: &str) -> (r: (Option<NodeDetail>, Vec<String>))
    ensures
        (opt_node_detail_view(r.0), string_views(r.1@)) == parse_scontrol_node_of(stdout@),
{
    let v = chars_of(stdout);
    let line = trim_exec(&v);
    if line.len() == 0 {
        return (None, one_note("empty scontrol node output"));
    }
    let m = parse_key_value_line(&line);
    if m.get_str("NodeName").is_none() {
        return (None, one_note("missing NodeName in scontrol show node output"));
    }
    let d = node_detail_from_map(&m);
    let notes: Vec<String> = Vec::new();
    assert(string_views(notes@) =~= Seq::<Seq<char>>::empty());
    (Some(d), notes)
}


/// One `sacct` detail row of sixteen fields.
pub struct HistoryDetailRow {
    pub job_id: Vec<char>,
    pub name: Vec<char>,
    pub user: Vec<char>,
    pub account: Option<Vec<char>>,
    pub partition: Option<Vec<char>>,
    pub state: Vec<char>,
    pub exit_code: Vec<char>,
    pub elapsed_raw: Vec<char>,
    pub submit: Option<Vec<char>>,
    pub start: Option<Vec<char>>,
    pub end: Option<Vec<char>>,
    pub alloc_tres: Option<Vec<char>>,
    pub req_tres: Option<Vec<char>>,
    pub nodes: Option<u32>,
    pub n_tasks: Option<u32>,
    pub node_list: Option<Vec<char>>,
}

pub struct HistoryDetailRowView {
    pub job_id: Seq<char>,
    pub name: Seq<char>,
    pub user: Seq<char>,
    pub account: Option<Seq<char>>,
    pub partition: Option<Seq<char>>,
    pub state: Seq<char>,
    pub exit_code: Seq<char>,
    pub elapsed_raw: Seq<char>,
    pub submit: Option<Seq<char>>,
    pub start: Option<Seq<char>>,
    pub end: Option<Seq<char>>,
    pub alloc_tres: Option<Seq<char>>,
    pub req_tres: Option<Seq<char>>,
    pub nodes: Option<u32>,
    pub n_tasks: Option<u32>,
    pub node_list: Option<Seq<char>>,
}

pub open spec fn ovc(o: Option<Vec<char>>) -> Option<Seq<char>> {
    match o {
        Some(v) => Some(v@),
        None => None,
    }
}

impl View for HistoryDetailRow {
    type V = HistoryDetailRowView;

    open spec fn view(&self) -> HistoryDetailRowView {
        HistoryDetailRowView {
            job_id: self.job_id@,
            name: self.name@,
            user: self.user@,
            account: ovc(self.account),
            partition: ovc(self.partition),
            state: self.state@,
            exit_code: self.exit_code@,
            elapsed_raw: self.elapsed_raw@,
            submit: ovc(self.submit),
            start: ovc(self.start),
            end: ovc(self.end),
            alloc_tres: ovc(self.alloc_tres),
            req_tres: ovc(self.req_tres),
            nodes: self.nodes,
            n_tasks: self.n_tasks,
            node_list: ovc(self.node_list),
        }
    }
}

/// The detail row of the sixteen `sacct` fields `id, name, user, account,
/// partition, state, exit code, elapsed, submit, start, end, AllocTRES,
/// ReqTRES, nodes, tasks, node list`.
pub open spec fn detail_row_of_fields(f: Seq<Seq<char>>) -> HistoryDetailRowView {
    HistoryDetailRowView {
        job_id: trim(f[0]),
        name: trim(f[1]),
        user: trim(f[2]),
        account: clean_optional_of(f[3]),
        partition: clean_optional_of(f[4]),
        state: trim(f[5]),
        exit_code: trim(f[6]),
        elapsed_raw: trim(f[7]),
        submit: clean_optional_of(f[8]),
        start: clean_optional_of(f[9]),
        end: clean_optional_of(f[10]),
        alloc_tres: clean_optional_of(f[11]),
        req_tres: clean_optional_of(f[12]),
        nodes: parse_u32_of(f[13]),
        n_tasks: parse_u32_of(f[14]),
        node_list: clean_optional_of(f[15]),
    }
}

pub open spec fn detail_rows_fold(ls: Seq<Seq<char>>) -> (Seq<HistoryDetailRowView>, Seq<Seq<char>>)
    decreases ls.len(),
{
    if ls.len() == 0 {
        (Seq::empty(), Seq::empty())
    } else {
        let r = detail_rows_fold(ls.drop_last());
        let line = ls.last();
        let f = split_on(line, '|');
        if trim(line).len() == 0 {
            r
        } else if f.len() != 16 {
            (r.0, r.1.push(ignored_line_note("ignored sacct detail line "@, ls.len(), f.len())))
        } else if contains_sub(trim(f[0]), "."@) {
            r
        } else {
            (r.0.push(detail_row_of_fields(f)), r.1)
        }
    }
}

/// A non-blank `sacct` detail line with sixteen fields whose job id names
/// a job, not one of its steps.
pub open spec fn is_detail_row_line(l: Seq<char>) -> bool {
    trim(l).len() > 0 && split_on(l, '|').len() == 16 && !contains_sub(trim(split_on(l, '|')[0]), "."@)
}

/// Whether a line is non-blank without sixteen fields.
pub open spec fn is_bad_detail_line(l: Seq<char>) -> bool {
    trim(l).len() > 0 && split_on(l, '|').len() != 16
}

proof fn lemma_detail_rows_per_line(ls: Seq<Seq<char>>)
    ensures
        detail_rows_fold(ls).0 == ls.filter(|l: Seq<char>| is_detail_row_line(l)).map_values(
            |l: Seq<char>| detail_row_of_fields(split_on(l, '|')),
        ),
        detail_rows_fold(ls).1.len() == ls.filter(|l: Seq<char>| is_bad_detail_line(l)).len(),
    decreases ls.len(),
{
    reveal(Seq::filter);
    if ls.len() > 0 {
        lemma_detail_rows_per_line(ls.drop_last());
        let fl = ls.drop_last().filter(|l: Seq<char>| is_detail_row_line(l));
        let g = |l: Seq<char>| detail_row_of_fields(split_on(l, '|'));
        if is_detail_row_line(ls.last()) {
            assert(fl.push(ls.last()).map_values(g) =~= fl.map_values(g).push(g(ls.last())));
        }
    }
}

/// Reading `sacct` detail output: the detail is that of the first
/// sixteen-field line naming a job (not a step), and there is none exactly
/// when no line is such; one note is kept for each non-blank line without
/// sixteen fields, and the detail carries those notes.
pub proof fn lemma_history_detail_per_line(stdout: Seq<char>, current_user: Seq<char>)
    ensures
        ({
            let rows = lines(stdout).filter(|l: Seq<char>| is_detail_row_line(l));
            let r = parse_history_detail_of(stdout, current_user);
            &&& (r.0 is None <==> rows.len() == 0)
            &&& r.1.len() == lines(stdout).filter(|l: Seq<char>| is_bad_detail_line(l)).len()
            &&& rows.len() > 0 ==> r.0 == Some(
                job_detail_of_row(detail_row_of_fields(split_on(rows[0], '|')), r.1, current_user),
            )
        }),
{
    lemma_detail_rows_per_line(lines(stdout));
}

pub open spec fn row_views(v: Seq<HistoryDetailRow>) -> Seq<HistoryDetailRowView> {
    v.map_values(|r: HistoryDetailRow| r@)
}

fn detail_row_from_fields(f: &Vec<Vec<char>>) -> (r: HistoryDetailRow)
    requires
        f@.len() == 16,
    ensures
        r@ == detail_row_of_fields(views(f@)),
{
    HistoryDetailRow {
        job_id: trim_exec(&f[0]),
        name: trim_exec(&f[1]),
        user: trim_exec(&f[2]),
        account: clean_optional(&f[3]),
        partition: clean_optional(&f[4]),
        state: trim_exec(&f[5]),
        exit_code: trim_exec(&f[6]),
        elapsed_raw: trim_exec(&f[7]),
        submit: clean_optional(&f[8]),
        start: clean_optional(&f[9]),
        end: clean_optional(&f[10]),
        alloc_tres: clean_optional(&f[11]),
        req_tres: clean_optional(&f[12]),
        nodes: parse_u32(&f[13]),
        n_tasks: parse_u32(&f[14]),
        node_list: clean_optional(&f[15]),
    }
}

/// Reads `sacct` detail lines of sixteen `|`-separated fields, leaving out
/// job steps.
pub fn parse_history_detail_rows(stdout: &Vec<char>) -> (r: (Vec<HistoryDetailRow>, Vec<String>))
    ensures
        (row_views(r.0@), string_views(r.1@)) == detail_rows_fold(lines(stdout@)),
{
    let ls = lines_exec(stdout);
    let mut rows: Vec<HistoryDetailRow> = Vec::new();
    let mut notes: Vec<String> = Vec::new();
    let mut i: usize = 0;
    while i < ls.len()
        invariant
            i <= ls@.len(),
            views(ls@) == lines(stdout@),
            (row_views(rows@), string_views(notes@)) == detail_rows_fold(
                views(ls@).take(i as int),
            ),
        decreases ls@.len() - i,
    {
        let ghost now = views(ls@).take(i + 1);
        proof {
            assert(now.drop_last() =~= views(ls@).take(i as int));
            assert(now.last() == ls@[i as int]@);
            assert(now.len() == i + 1);
        }
        let line = &ls[i];
        let t = trim_exec(line);
        if t.len() == 0 {
            i = i + 1;
            continue;
        }
        let fields = split_exec(line, '|');
        if fields.len() != 16 {
            let ghost before = notes@;
            notes.push(ignored_line_note_exec("ignored sacct detail line ", i + 1, fields.len()));
            assert(string_views(notes@) =~= string_views(before).push(
                ignored_line_note("ignored sacct detail line "@, (i + 1) as nat, fields@.len()),
            ));
            i = i + 1;
            continue;
        }
        let id = trim_exec(&fields[0]);
        if contains_str(&id, ".") {
            i = i + 1;
            continue;
        }
        let ghost before = rows@;
        rows.push(detail_row_from_fields(&fields));
        assert(row_views(rows@) =~= row_views(before).push(detail_row_of_fields(views(fields@))));
        i = i + 1;
    }
    assert(views(ls@).take(ls@.len() as int) =~= views(ls@));
    (rows, notes)
}

/// The detail of a job from its first `sacct` detail row.
pub open spec fn job_detail_of_row(
    row: HistoryDetailRowView,
    notes: Seq<Seq<char>>,
    current_user: Seq<char>,
) -> JobDetailView {
    let am = opt_resource_map(row.alloc_tres);
    let rm = opt_resource_map(row.req_tres);
    JobDetailView {
        job_id: row.job_id,
        name: Some(row.name),
        user: Some(row.user),
        account: row.account,
        partition: row.partition,
        state: Some(row.state),
        reason: None,
        exit_code: Some(row.exit_code),
        nodes: row.nodes,
        n_tasks: row.n_tasks,
        cpus: narrow_u32(or_else(mget(am, "cpu"@), mget(rm, "cpu"@))),
        memory_mb: or_else(mget(am, "mem"@), mget(rm, "mem"@)),
        requested_gpus: narrow_u32(or_else(mget(am, "gres/gpu"@), mget(rm, "gres/gpu"@))),
        gres: row.alloc_tres,
        req_tres: row.req_tres,
        alloc_tres: row.alloc_tres,
        runtime_raw: Some(row.elapsed_raw),
        time_limit_raw: None,
        submit_time: row.submit,
        start_time: row.start,
        end_time: row.end,
        node_list: row.node_list,
        work_dir: None,
        command: None,
        stdout_path: None,
        stderr_path: None,
        source_notes: notes,
        active: row.end == Some("Unknown"@) || row.state == "RUNNING"@,
        is_mine: row.user == current_user,
    }
}

/// The detail of a job from `sacct` detail output: the first row, with the
/// notes of the lines that were ignored.
pub open spec fn parse_history_detail_of(stdout: Seq<char>, current_user: Seq<char>) -> (
    Option<JobDetailView>,
    Seq<Seq<char>>,
) {
    let r = detail_rows_fold(lines(stdout));
    if r.0.len() == 0 {
        (None, r.1)
    } else {
        (Some(job_detail_of_row(r.0[0], r.1, current_user)), r.1)
    }
}

fn or_else_u64(a: Option<u64>, b: Option<u64>) -> (r: Option<u64>)
    ensures
        r == or_else(a, b),
{
    match a {
        Some(x) => Some(x),
        None => b,
    }
}

/// Reads `sacct` detail output into the detail of its first job.
pub fn parse_history_detail(stdout: &str, current_user: &str) -> (r: (
    Option<JobDetail>,
    Vec<String>,
))
    ensures
        (opt_detail_view(r.0), string_views(r.1@)) == parse_history_detail_of(
            stdout@,
            current_user@,
        ),
{
    let v = chars_of(stdout);
    let u = chars_of(current_user);
    let (rows, notes) = parse_history_detail_rows(&v);
    if rows.len() == 0 {
        return (None, notes);
    }
    let row = &rows[0];
    let am = opt_resource_map_exec(&row.alloc_tres);
    let rm = opt_resource_map_exec(&row.req_tres);
    let active = match &row.end {
        Some(e) => eq_str(e, "Unknown"),
        None => false,
    } || eq_str(&row.state, "RUNNING");
    let d = JobDetail {
        job_id: string_of(&row.job_id),
        name: Some(string_of(&row.name)),
        user: Some(string_of(&row.user)),
        account: crate::model::types::opt_string_of(&row.account),
        partition: crate::model::types::opt_string_of(&row.partition),
        state: Some(string_of(&row.state)),
        reason: None,
        exit_code: Some(string_of(&row.exit_code)),
        nodes: row.nodes,
        n_tasks: row.n_tasks,
        cpus: narrow_u32_exec(or_else_u64(get_u64(&am, "cpu"), get_u64(&rm, "cpu"))),
        memory_mb: or_else_u64(get_u64(&am, "mem"), get_u64(&rm, "mem")),
        requested_gpus: narrow_u32_exec(
            or_else_u64(get_u64(&am, "gres/gpu"), get_u64(&rm, "gres/gpu")),
        ),
        gres: crate::model::types::opt_string_of(&row.alloc_tres),
        req_tres: crate::model::types::opt_string_of(&row.req_tres),
        alloc_tres: crate::model::types::opt_string_of(&row.alloc_tres),
        runtime_raw: Some(string_of(&row.elapsed_raw)),
        time_limit_raw: None,
        submit_time: crate::model::types::opt_string_of(&row.submit),
        start_time: crate::model::types::opt_string_of(&row.start),
        end_time: crate::model::types::opt_string_of(&row.end),
        node_list: crate::model::types::opt_string_of(&row.node_list),
        work_dir: None,
        command: None,
        stdout_path: None,
        stderr_path: None,
        source_notes: clone_strings(&notes),
        active,
        is_mine: crate::text::eq_chars(&row.user, &u),
    };
    assert(row_views(rows@)[0] == row@);
    (Some(d), notes)
}


/// The `squeue` lines that give jobs, in order.
pub open spec fn job_lines(stdout: Seq<char>) -> Seq<Seq<char>> {
    lines(stdout).filter(|l: Seq<char>| is_job_line(l))
}

/// What each job read from `squeue` output holds, field by field of the
/// line it comes from: the id, user, partition text, name, state (upper
/// cased), times, node count (the ninth field, 0 when it is no number),
/// CPUs (the tenth), priority and location; it is the current user's when
/// its user is; it is running in the states RUNNING and COMPLETING,
/// pending in PENDING and CONFIGURING, and active in those and SUSPENDED.
pub proof fn lemma_job_fields(stdout: Seq<char>, current_user: Seq<char>, k: int)
    requires
        0 <= k < parse_jobs_of(stdout, current_user).0.len(),
    ensures
        ({
            let j = parse_jobs_of(stdout, current_user).0[k];
            let f = split_on(job_lines(stdout)[k], FIELD_SEP);
            &&& k < job_lines(stdout).len()
            &&& f.len() == 14
            &&& j.job_id == trim(f[0])
            &&& j.user == trim(f[1])
            &&& j.is_mine == (trim(f[1]) == current_user)
            &&& j.partition_raw == trim(f[3])
            &&& j.name == trim(f[4])
            &&& j.state == uppercase_of(trim(f[5]))
            &&& j.runtime_raw == trim(f[6])
            &&& j.time_limit_raw == trim(f[7])
            &&& j.nodes == match parse_u32_of(f[8]) {
                Some(n) => n,
                None => 0u32,
            }
            &&& j.cpus == parse_u32_of(f[9])
            &&& j.priority == parse_u64_of(f[12])
            &&& j.location_or_reason == trim(f[13])
            &&& j.account == clean_optional_of(f[2])
            &&& j.gres == clean_optional_of(f[10])
            &&& j.requested_gpus == opt_gpu_count(clean_optional_of(f[10]))
            &&& j.submit_time == clean_optional_of(f[11])
            &&& j.runtime_secs == duration_of(f[6])
            &&& j.time_limit_secs == duration_of(f[7])
            &&& j.partitions == listed_partitions(trim(f[3]))
            &&& forall|i: int|
                0 <= i < j.partitions.len() ==> (#[trigger] j.partitions[i]).len() > 0
                    && j.partitions[i].last() != '*'
            &&& j.running == (j.state == "RUNNING"@ || j.state == "COMPLETING"@)
            &&& j.pending == (j.state == "PENDING"@ || j.state == "CONFIGURING"@)
            &&& j.active == (j.running || j.pending || j.state == "SUSPENDED"@)
        }),
{
    lemma_jobs_per_line(stdout, current_user);
    let rows = job_lines(stdout);
    assert(k < rows.len());
    let l = rows[k];
    assert(is_job_line(l)) by {
        rows_satisfy(lines(stdout), k);
    }
    let f = split_on(l, FIELD_SEP);
    lemma_listed_partitions(trim(f[3]));
}

/// The partitions a job's partition text lists: its comma-separated
/// pieces, each trimmed and without a trailing `*`, empty ones left out;
/// `unknown` when none is left.
pub open spec fn listed_partitions(raw: Seq<char>) -> Seq<Seq<char>> {
    let ps = split_on(raw, ',').map_values(|x: Seq<char>| trim_end_char(trim(x), '*')).filter(
        |p: Seq<char>| p.len() > 0,
    );
    if ps.len() == 0 {
        seq!["unknown"@]
    } else {
        ps
    }
}

proof fn lemma_nonempty_partitions(pieces: Seq<Seq<char>>)
    ensures
        nonempty_partitions(pieces) == pieces.map_values(|x: Seq<char>| trim_end_char(trim(x), '*')).filter(
            |p: Seq<char>| p.len() > 0,
        ),
        forall|i: int|
            0 <= i < nonempty_partitions(pieces).len() ==> (#[trigger] nonempty_partitions(pieces)[i]).len() > 0
                && nonempty_partitions(pieces)[i].last() != '*',
    decreases pieces.len(),
{
    reveal(Seq::filter);
    if pieces.len() > 0 {
        let rest = pieces.drop_last();
        lemma_nonempty_partitions(rest);
        let g = |x: Seq<char>| trim_end_char(trim(x), '*');
        assert(pieces.map_values(g).drop_last() =~= rest.map_values(g));
        assert(pieces.map_values(g).last() == g(pieces.last()));
        lemma_trim_end_char(trim(pieces.last()), '*');
        let r = nonempty_partitions(rest);
        let q = normalize_partition_of(pieces.last());
        if q.len() > 0 {
            assert forall|i: int| 0 <= i < r.push(q).len() implies (#[trigger] r.push(q)[i]).len() > 0
                && r.push(q)[i].last() != '*' by {
                if i < r.len() {
                    assert(r.push(q)[i] == r[i]);
                }
            }
        }
    }
}

proof fn lemma_listed_partitions(raw: Seq<char>)
    ensures
        split_partitions_of(raw) == listed_partitions(raw),
        forall|i: int|
            0 <= i < listed_partitions(raw).len() ==> (#[trigger] listed_partitions(raw)[i]).len() > 0
                && listed_partitions(raw)[i].last() != '*',
{
    lemma_nonempty_partitions(split_on(raw, ','));
    reveal_strlit("unknown");
    if nonempty_partitions(split_on(raw, ',')).len() == 0 {
        assert(seq!["unknown"@][0] == "unknown"@);
    }
}

proof fn rows_satisfy(ls: Seq<Seq<char>>, k: int)
    requires
        0 <= k < ls.filter(|l: Seq<char>| is_job_line(l)).len(),
    ensures
        is_job_line(ls.filter(|l: Seq<char>| is_job_line(l))[k]),
{
    broadcast use vstd::seq_lib::group_filter_ensures;
    let f = ls.filter(|l: Seq<char>| is_job_line(l));
    assert((|l: Seq<char>| is_job_line(l))(f[k]));
}

/// A non-blank `sinfo` line with six fields.
pub open spec fn is_node_line(l: Seq<char>) -> bool {
    trim(l).len() > 0 && split_on(l, FIELD_SEP).len() == 6
}

/// The `sinfo` lines that give nodes, in order.
pub open spec fn node_lines(stdout: Seq<char>) -> Seq<Seq<char>> {
    lines(stdout).filter(|l: Seq<char>| is_node_line(l))
}

proof fn lemma_nodes_fold_per_line(ls: Seq<Seq<char>>)
    ensures
        nodes_fold(ls).0 == ls.filter(|l: Seq<char>| is_node_line(l)).map_values(
            |l: Seq<char>| node_of_fields(split_on(l, FIELD_SEP)),
        ),
    decreases ls.len(),
{
    reveal(Seq::filter);
    if ls.len() > 0 {
        lemma_nodes_fold_per_line(ls.drop_last());
        let fl = ls.drop_last().filter(|l: Seq<char>| is_node_line(l));
        let g = |l: Seq<char>| node_of_fields(split_on(l, FIELD_SEP));
        if is_node_line(ls.last()) {
            assert(fl.push(ls.last()).map_values(g) =~= fl.map_values(g).push(g(ls.last())));
        }
    }
}

/// `trim_end_char(s, c)` is `s` without its trailing run of `c`.
proof fn lemma_trim_end_char(s: Seq<char>, c: char)
    ensures
        trim_end_char(s, c).len() <= s.len(),
        trim_end_char(s, c) == s.take(trim_end_char(s, c).len() as int),
        forall|i: int| trim_end_char(s, c).len() <= i < s.len() ==> s[i] == c,
        trim_end_char(s, c).len() == 0 || trim_end_char(s, c).last() != c,
    decreases s.len(),
{
    if s.len() > 0 && s.last() == c {
        lemma_trim_end_char(s.drop_last(), c);
        let t = trim_end_char(s.drop_last(), c);
        assert(s.drop_last().take(t.len() as int) =~= s.take(t.len() as int));
        assert forall|i: int| t.len() <= i < s.len() implies s[i] == c by {
            if i < s.len() - 1 {
                assert(s.drop_last()[i] == s[i]);
            }
        }
    } else {
        assert(s.take(s.len() as int) =~= s);
    }
}

/// What each node read from `sinfo` output holds, from the line it comes
/// from: its partition is the first field, trimmed, without the trailing
/// `*` that marks the default partition (so it never ends in `*`); its name
/// is the third field, its CPUs the fourth and its memory the fifth.
pub proof fn lemma_node_fields(stdout: Seq<char>, k: int)
    requires
        0 <= k < parse_nodes_of(stdout).0.len(),
    ensures
        ({
            let n = parse_nodes_of(stdout).0[k];
            let f = split_on(node_lines(stdout)[k], FIELD_SEP);
            let t = trim(f[0]);
            &&& k < node_lines(stdout).len()
            &&& f.len() == 6
            &&& n.partition.len() <= t.len()
            &&& n.partition == t.take(n.partition.len() as int)
            &&& forall|i: int| n.partition.len() <= i < t.len() ==> t[i] == '*'
            &&& (n.partition.len() == 0 || n.partition.last() != '*')
            &&& n.node_name == trim(f[2])
            &&& n.cpus == parse_u32_of(f[3])
            &&& n.memory_mb == parse_u64_of(f[4])
            &&& n.state == normalize_node_state_of(f[1])
            &&& n.gres == clean_optional_of(f[5])
            &&& n.gpus == opt_gpu_count(clean_optional_of(f[5]))
        }),
{
    broadcast use vstd::seq_lib::group_filter_ensures;
    lemma_nodes_fold_per_line(lines(stdout));
    let rows = node_lines(stdout);
    assert(k < rows.len());
    assert((|l: Seq<char>| is_node_line(l))(rows[k]));
    let f = split_on(rows[k], FIELD_SEP);
    lemma_trim_end_char(trim(f[0]), '*');
}

/// Whether `t` is a `key=...` token.
pub open spec fn key_is(t: Seq<char>, key: Seq<char>) -> bool {
    match split_once(t, '=') {
        Some((k, _)) => k == key,
        None => false,
    }
}

/// Whether some token of `toks` is `key=...`.
pub open spec fn has_key(toks: Seq<Seq<char>>, key: Seq<char>) -> bool {
    exists|i: int| 0 <= i < toks.len() && #[trigger] key_is(toks[i], key)
}

/// Whether `key=v` is the last token of `toks` with key `key`.
pub open spec fn last_value_is(toks: Seq<Seq<char>>, key: Seq<char>, v: Seq<char>) -> bool {
    exists|i: int|
        0 <= i < toks.len() && split_once(toks[i], '=') == Some((key, v)) && forall|j: int|
            i < j < toks.len() ==> !#[trigger] key_is(toks[j], key)
}

proof fn lemma_token_map_dom(toks: Seq<Seq<char>>, key: Seq<char>)
    ensures
        token_map(toks).dom().contains(key) <==> has_key(toks, key),
    decreases toks.len(),
{
    if toks.len() > 0 {
        let rest = toks.drop_last();
        lemma_token_map_dom(rest, key);
        let n = toks.len() - 1;
        assert(toks[n] == toks.last());
        if has_key(toks, key) && !key_is(toks.last(), key) {
            let i = choose|i: int| 0 <= i < toks.len() && #[trigger] key_is(toks[i], key);
            assert(rest[i] == toks[i]);
        }
        if has_key(rest, key) {
            let i = choose|i: int| 0 <= i < rest.len() && #[trigger] key_is(rest[i], key);
            assert(toks[i] == rest[i]);
        }
        if key_is(toks.last(), key) {
            assert(key_is(toks[n], key));
        }
    }
}

#[verifier::spinoff_prover]
proof fn lemma_token_map_last(toks: Seq<Seq<char>>, key: Seq<char>)
    ensures
        token_map(toks).dom().contains(key) ==> last_value_is(toks, key, token_map(toks)[key]),
    decreases toks.len(),
{
    if toks.len() > 0 {
        let rest = toks.drop_last();
        lemma_token_map_last(rest, key);
        let n = toks.len() - 1;
        assert(toks[n] == toks.last());
        if token_map(toks).dom().contains(key) {
            if key_is(toks.last(), key) {
                assert(split_once(toks[n], '=') == Some((key, token_map(toks)[key])));
            } else {
                let v = token_map(rest)[key];
                assert(token_map(toks)[key] == v);
                let i = choose|i: int|
                    0 <= i < rest.len() && split_once(rest[i], '=') == Some((key, v)) && forall|j: int|
                        i < j < rest.len() ==> !#[trigger] key_is(rest[j], key);
                assert(toks[i] == rest[i]);
                assert forall|j: int| i < j < toks.len() implies !#[trigger] key_is(toks[j], key) by {
                    if j < n {
                        assert(toks[j] == rest[j]);
                    }
                }
            }
        }
    }
}

proof fn lemma_last_value_unique(toks: Seq<Seq<char>>, key: Seq<char>, v: Seq<char>, w: Seq<char>)
    requires
        last_value_is(toks, key, v),
        last_value_is(toks, key, w),
    ensures
        v == w,
{
    let i = choose|i: int|
        0 <= i < toks.len() && split_once(toks[i], '=') == Some((key, v)) && forall|j: int|
            i < j < toks.len() ==> !#[trigger] key_is(toks[j], key);
    let h = choose|i: int|
        0 <= i < toks.len() && split_once(toks[i], '=') == Some((key, w)) && forall|j: int|
            i < j < toks.len() ==> !#[trigger] key_is(toks[j], key);
    assert(key_is(toks[i], key));
    assert(key_is(toks[h], key));
}

proof fn lemma_token_map(toks: Seq<Seq<char>>, key: Seq<char>, v: Seq<char>)
    ensures
        token_map(toks).dom().contains(key) <==> has_key(toks, key),
        token_map(toks).dom().contains(key) ==> last_value_is(toks, key, token_map(toks)[key]),
        last_value_is(toks, key, v) ==> token_map(toks).dom().contains(key) && v == token_map(toks)[key],
{
    lemma_token_map_dom(toks, key);
    lemma_token_map_last(toks, key);
    if last_value_is(toks, key, v) {
        let i = choose|i: int|
            0 <= i < toks.len() && split_once(toks[i], '=') == Some((key, v)) && forall|j: int|
                i < j < toks.len() ==> !#[trigger] key_is(toks[j], key);
        assert(key_is(toks[i], key));
        lemma_last_value_unique(toks, key, v, token_map(toks)[key]);
    }
}

/// The tokens of a partition block.
pub open spec fn block_tokens(b: Seq<char>) -> Seq<Seq<char>> {
    words(trim(b))
}

/// A non-blank block that names a partition.
pub open spec fn is_spec_block(b: Seq<char>) -> bool {
    trim(b).len() > 0 && token_map(block_tokens(b)).dom().contains("PartitionName"@)
}

/// The partition a naming block describes.
pub open spec fn block_spec(b: Seq<char>) -> PartitionSpecView {
    match partition_of_block(token_map(block_tokens(b))) {
        Some(p) => p,
        None => PartitionSpecView {
            name: Seq::empty(),
            state: Seq::empty(),
            total_nodes: None,
            total_cpus: None,
            total_mem_mb: None,
            total_gpus: None,
        },
    }
}

/// The `scontrol show partition` blocks that give partitions, in order.
pub open spec fn spec_blocks(stdout: Seq<char>) -> Seq<Seq<char>> {
    blocks(stdout).filter(|b: Seq<char>| is_spec_block(b))
}

proof fn lemma_specs_fold_per_block(bs: Seq<Seq<char>>)
    ensures
        specs_fold(bs).0 == bs.filter(|b: Seq<char>| is_spec_block(b)).map_values(
            |b: Seq<char>| block_spec(b),
        ),
    decreases bs.len(),
{
    reveal(Seq::filter);
    if bs.len() > 0 {
        lemma_specs_fold_per_block(bs.drop_last());
        let fl = bs.drop_last().filter(|b: Seq<char>| is_spec_block(b));
        let g = |b: Seq<char>| block_spec(b);
        if is_spec_block(bs.last()) {
            assert(fl.push(bs.last()).map_values(g) =~= fl.map_values(g).push(g(bs.last())));
        }
    }
}

/// What each partition read from `scontrol show partition` output holds,
/// from the `key=value` tokens of its block, where a key given twice counts
/// with its last value: the block has a `PartitionName` token and the name
/// is its value; the state is the `State` value, `UNKNOWN` without one; the
/// total nodes are the `TotalNodes` value read as a number (none without
/// the token or when it is no number), and the total CPUs the `TotalCPUs`
/// value likewise.
pub proof fn lemma_partition_spec_fields(stdout: Seq<char>, k: int, v: Seq<char>)
    requires
        0 <= k < parse_partition_specs_of(stdout).0.len(),
    ensures
        ({
            let p = parse_partition_specs_of(stdout).0[k];
            let toks = block_tokens(spec_blocks(stdout)[k]);
            &&& k < spec_blocks(stdout).len()
            &&& last_value_is(toks, "PartitionName"@, p.name)
            &&& (last_value_is(toks, "State"@, v) ==> p.state == v)
            &&& (!has_key(toks, "State"@) ==> p.state == "UNKNOWN"@)
            &&& (last_value_is(toks, "TotalNodes"@, v) ==> p.total_nodes == parse_u32_of(v))
            &&& (!has_key(toks, "TotalNodes"@) ==> p.total_nodes is None)
            &&& (last_value_is(toks, "TotalCPUs"@, v) ==> p.total_cpus == parse_u64_of(v))
            &&& (!has_key(toks, "TotalCPUs"@) ==> p.total_cpus is None)
            &&& (last_value_is(toks, "TRES"@, v) ==> p.total_mem_mb == mget(resource_map_of(v), "mem"@)
                && p.total_gpus == tres_gpus(resource_map_of(v)))
            &&& (!has_key(toks, "TRES"@) ==> p.total_mem_mb == mget(resource_map_of(Seq::empty()), "mem"@)
                && p.total_gpus == tres_gpus(resource_map_of(Seq::empty())))
        }),
{
    broadcast use vstd::seq_lib::group_filter_ensures;
    lemma_specs_fold_per_block(blocks(stdout));
    let bs = spec_blocks(stdout);
    assert(k < bs.len());
    assert((|b: Seq<char>| is_spec_block(b))(bs[k]));
    let toks = block_tokens(bs[k]);
    lemma_token_map(toks, "PartitionName"@, v);
    lemma_token_map(toks, "State"@, v);
    lemma_token_map(toks, "TotalNodes"@, v);
    lemma_token_map(toks, "TotalCPUs"@, v);
    lemma_token_map(toks, "TRES"@, v);
}

/// A non-blank `sacct` line with eleven fields whose job id names a job,
/// not one of its steps.
pub open spec fn is_history_line(l: Seq<char>) -> bool {
    trim(l).len() > 0 && split_on(l, '|').len() == 11 && !contains_sub(trim(split_on(l, '|')[0]), "."@)
}

/// The `sacct` lines that give history rows, in order.
pub open spec fn history_lines(stdout: Seq<char>) -> Seq<Seq<char>> {
    lines(stdout).filter(|l: Seq<char>| is_history_line(l))
}

proof fn lemma_history_fold_per_line(ls: Seq<Seq<char>>, current_user: Seq<char>)
    ensures
        history_fold(ls, current_user).0 == ls.filter(|l: Seq<char>| is_history_line(l)).map_values(
            |l: Seq<char>| history_of_fields(split_on(l, '|'), current_user),
        ),
    decreases ls.len(),
{
    reveal(Seq::filter);
    if ls.len() > 0 {
        lemma_history_fold_per_line(ls.drop_last(), current_user);
        let fl = ls.drop_last().filter(|l: Seq<char>| is_history_line(l));
        let g = |l: Seq<char>| history_of_fields(split_on(l, '|'), current_user);
        if is_history_line(ls.last()) {
            assert(fl.push(ls.last()).map_values(g) =~= fl.map_values(g).push(g(ls.last())));
        }
    }
}

/// What each history row read from `sacct` output holds, field by field of
/// the line it comes from (job id, name, user, partition, state, exit code,
/// elapsed time, start, end, allocated and requested TRES); it is the
/// current user's when its user is; its allocated CPUs and memory are the
/// `cpu` and `mem` entries of the allocated TRES.
pub proof fn lemma_history_fields(stdout: Seq<char>, current_user: Seq<char>, k: int)
    requires
        0 <= k < parse_history_of(stdout, current_user).0.len(),
    ensures
        ({
            let h = parse_history_of(stdout, current_user).0[k];
            let f = split_on(history_lines(stdout)[k], '|');
            &&& k < history_lines(stdout).len()
            &&& f.len() == 11
            &&& !contains_sub(trim(f[0]), "."@)
            &&& h.job_id == trim(f[0])
            &&& h.name == trim(f[1])
            &&& h.user == trim(f[2])
            &&& h.is_mine == (trim(f[2]) == current_user)
            &&& h.partition == clean_optional_of(f[3])
            &&& h.state == trim(f[4])
            &&& h.exit_code == trim(f[5])
            &&& h.elapsed_raw == trim(f[6])
            &&& h.elapsed_secs == duration_of(f[6])
            &&& h.start == clean_optional_of(f[7])
            &&& h.end == clean_optional_of(f[8])
            &&& h.alloc_tres == clean_optional_of(f[9])
            &&& h.req_tres == clean_optional_of(f[10])
            &&& h.alloc_cpus == narrow_u32(mget(opt_resource_map(clean_optional_of(f[9])), "cpu"@))
            &&& h.alloc_mem_mb == mget(opt_resource_map(clean_optional_of(f[9])), "mem"@)
        }),
{
    broadcast use vstd::seq_lib::group_filter_ensures;
    lemma_history_fold_per_line(lines(stdout), current_user);
    let rows = history_lines(stdout);
    assert(k < rows.len());
    assert((|l: Seq<char>| is_history_line(l))(rows[k]));
}

/// What `scontrol show job -o` output gives: nothing, with the note
/// `empty scontrol job output`, for blank output; nothing, with the note
/// `missing JobId in scontrol show job output`, when no field is `JobId`;
/// otherwise a detail with no note, whose fields are the values of the
/// fields of the same names: `JobId`, `JobName`, `Account`, `Partition`,
/// `JobState`, `Reason`, `ExitCode`, `NumNodes`, `NumTasks` and `NumCPUs`
/// (as numbers), `RunTime`, `TimeLimit`, `SubmitTime`, `StartTime`,
/// `EndTime`, `NodeList` (else `ReqNodeList`), `WorkDir`, `Command`,
/// `StdOut` and `StdErr`; the user is `UserId` up to its `(`, and the job
/// is the current user's exactly when that user is.
pub proof fn lemma_scontrol_job_fields(stdout: Seq<char>, current_user: Seq<char>)
    ensures
        ({
            let r = parse_scontrol_job_of(stdout, current_user);
            let m = key_values_of(trim(stdout));
            &&& trim(stdout).len() == 0 ==> r == (None::<JobDetailView>, seq!["empty scontrol job output"@])
            &&& trim(stdout).len() > 0 && !m.dom().contains("JobId"@) ==> r == (
                None::<JobDetailView>,
                seq!["missing JobId in scontrol show job output"@],
            )
            &&& trim(stdout).len() > 0 && m.dom().contains("JobId"@) ==> {
                &&& r.1.len() == 0
                &&& r.0 matches Some(d) && {
                    &&& d.job_id == m["JobId"@]
                    &&& d.name == mget(m, "JobName"@)
                    &&& d.account == mget(m, "Account"@)
                    &&& d.partition == mget(m, "Partition"@)
                    &&& d.state == mget(m, "JobState"@)
                    &&& d.reason == mget(m, "Reason"@)
                    &&& d.exit_code == mget(m, "ExitCode"@)
                    &&& d.nodes == opt_u32_field(mget(m, "NumNodes"@))
                    &&& d.n_tasks == opt_u32_field(mget(m, "NumTasks"@))
                    &&& d.cpus == opt_u32_field(mget(m, "NumCPUs"@))
                    &&& d.runtime_raw == mget(m, "RunTime"@)
                    &&& d.time_limit_raw == mget(m, "TimeLimit"@)
                    &&& d.submit_time == mget(m, "SubmitTime"@)
                    &&& d.start_time == mget(m, "StartTime"@)
                    &&& d.end_time == mget(m, "EndTime"@)
                    &&& d.node_list == (if m.dom().contains("NodeList"@) {
                        Some(m["NodeList"@])
                    } else {
                        mget(m, "ReqNodeList"@)
                    })
                    &&& d.work_dir == mget(m, "WorkDir"@)
                    &&& d.command == mget(m, "Command"@)
                    &&& d.stdout_path == mget(m, "StdOut"@)
                    &&& d.stderr_path == mget(m, "StdErr"@)
                    &&& d.user == (if m.dom().contains("UserId"@) {
                        Some(before_paren(m["UserId"@]))
                    } else {
                        None
                    })
                    &&& d.is_mine == (m.dom().contains("UserId"@) && before_paren(m["UserId"@])
                        == current_user)
                    &&& d.source_notes.len() == 0
                }
            }
        }),
{
}
} // verus!
