//! Whether command output stays within the integer types its parse keeps,
//! decided before parsing.
use vstd::prelude::*;

use crate::model::parse::{
    clean_optional, clean_optional_of, duration_checked, duration_fits, gpu_checked, gpu_fits,
    history_fit, jobs_fit, key_values_of, mget, nodes_fit, opt_gpu_fits, parse_key_value_line,
    scontrol_job_fits, value_views, Arith, FIELD_SEP,
};
use crate::text::{chars_of, lines, lines_exec, split_exec, split_on, trim, trim_exec, views};

verus! {

fn opt_gpu_fits_exec(g: &Option<Vec<char>>) -> (b: bool)
    ensures
        b == opt_gpu_fits(
            match g {
                Some(v) => Some(v@),
                None => None,
            },
        ),
{
    match g {
        Some(v) => match gpu_checked(v) {
            Arith::Overflow => false,
            _ => true,
        },
        None => true,
    }
}

fn duration_fits_exec(raw: &Vec<char>) -> (b: bool)
    ensures
        b == duration_fits(raw@),
{
    match duration_checked(raw) {
        Arith::Overflow => false,
        _ => true,
    }
}

/// Whether every `sinfo` node line's GPU count fits `u32`.
pub fn nodes_fit_exec(stdout: &str) -> (b: bool)
    ensures
        b == nodes_fit(stdout@),
{
    let v = chars_of(stdout);
    let ls = lines_exec(&v);
    let mut i: usize = 0;
    while i < ls.len()
        invariant
            i <= ls@.len(),
            views(ls@) == lines(stdout@),
            forall|k: int|
                0 <= k < i ==> {
                    let f = #[trigger] split_on(lines(stdout@)[k], FIELD_SEP);
                    f.len() == 6 ==> opt_gpu_fits(clean_optional_of(f[5]))
                },
        decreases ls@.len() - i,
    {
        let f = split_exec(&ls[i], FIELD_SEP);
        assert(ls@[i as int]@ == lines(stdout@)[i as int]);
        if f.len() == 6 {
            let g = clean_optional(&f[5]);
            if !opt_gpu_fits_exec(&g) {
                return false;
            }
        }
        i = i + 1;
    }
    true
}

/// Whether every `squeue` job line's durations fit `u64` and GPU count
/// fits `u32`.
pub fn jobs_fit_exec(stdout: &str) -> (b: bool)
    ensures
        b == jobs_fit(stdout@),
{
    let v = chars_of(stdout);
    let ls = lines_exec(&v);
    let mut i: usize = 0;
    while i < ls.len()
        invariant
            i <= ls@.len(),
            views(ls@) == lines(stdout@),
            forall|k: int|
                0 <= k < i ==> {
                    let f = #[trigger] split_on(lines(stdout@)[k], FIELD_SEP);
                    f.len() == 14 ==> {
                        &&& duration_fits(f[6])
                        &&& duration_fits(f[7])
                        &&& opt_gpu_fits(clean_optional_of(f[10]))
                    }
                },
        decreases ls@.len() - i,
    {
        let f = split_exec(&ls[i], FIELD_SEP);
        assert(ls@[i as int]@ == lines(stdout@)[i as int]);
        if f.len() == 14 {
            if !duration_fits_exec(&f[6]) || !duration_fits_exec(&f[7]) {
                return false;
            }
            let g = clean_optional(&f[10]);
            if !opt_gpu_fits_exec(&g) {
                return false;
            }
        }
        i = i + 1;
    }
    true
}

/// Whether every `sacct` history line's elapsed time fits `u64`.
pub fn history_fit_exec(stdout: &str) -> (b: bool)
    ensures
        b == history_fit(stdout@),
{
    let v = chars_of(stdout);
    let ls = lines_exec(&v);
    let mut i: usize = 0;
    while i < ls.len()
        invariant
            i <= ls@.len(),
            views(ls@) == lines(stdout@),
            forall|k: int|
                0 <= k < i ==> {
                    let f = #[trigger] split_on(lines(stdout@)[k], '|');
                    f.len() == 11 ==> duration_fits(f[6])
                },
        decreases ls@.len() - i,
    {
        let f = split_exec(&ls[i], '|');
        assert(ls@[i as int]@ == lines(stdout@)[i as int]);
        if f.len() == 11 && !duration_fits_exec(&f[6]) {
            return false;
        }
        i = i + 1;
    }
    true
}

/// Whether the GPU count of a `scontrol show job` line fits `u32`.
pub fn scontrol_job_fits_exec(stdout: &str) -> (b: bool)
    ensures
        b == scontrol_job_fits(stdout@),
{
    let v = chars_of(stdout);
    let t = trim_exec(&v);
    let m = parse_key_value_line(&t);
    match m.get_str("TresPerNode") {
        Some(x) => {
            proof {
                reveal_strlit("TresPerNode");
                assert(value_views(m@).dom().contains("TresPerNode"@));
            }
            match gpu_checked(x) {
                Arith::Overflow => false,
                _ => true,
            }
        },
        None => {
            proof {
                assert(!value_views(m@).dom().contains("TresPerNode"@));
            }
            true
        },
    }
}

} // verus!
