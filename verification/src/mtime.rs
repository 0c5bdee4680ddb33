//! Up-to-date checks by modification time.
//!
//! Times are nanoseconds since the Unix epoch; a time that could not be read
//! is `None` and left out, as a missing value is left out of a maximum.

use vstd::prelude::*;
use crate::error::Error;
use crate::types::CacheLookup;

verus! {

/// What is known of an output file.
pub struct FileStat {
    pub exists: bool,
    pub modified: Option<u128>,
}

/// The latest of the known times, or 0 (the epoch) when none is known.
pub open spec fn latest(s: Seq<Option<u128>>) -> int
    decreases s.len(),
{
    if s.len() == 0 {
        0
    } else {
        let m = latest(s.drop_last());
        match s.last() {
            Some(t) => if t > m {
                t as int
            } else {
                m
            },
            None => m,
        }
    }
}

/// The earliest of the known times, if any.
pub open spec fn earliest(s: Seq<Option<u128>>) -> Option<int>
    decreases s.len(),
{
    if s.len() == 0 {
        None
    } else {
        let m = earliest(s.drop_last());
        match s.last() {
            Some(t) => match m {
                Some(x) => if (t as int) < x {
                    Some(t as int)
                } else {
                    Some(x)
                },
                None => Some(t as int),
            },
            None => m,
        }
    }
}

/// The known times of the outputs.
pub open spec fn output_times(outputs: Seq<FileStat>) -> Seq<Option<u128>> {
    outputs.map_values(|f: FileStat| f.modified)
}

/// The verdict of the mtime check.
pub open spec fn check_mtime_spec(inputs: Seq<Option<u128>>, outputs: Seq<FileStat>) -> CacheLookup {
    if outputs.len() == 0 {
        CacheLookup::Miss
    } else if exists|i: int| 0 <= i < outputs.len() && !(#[trigger] outputs[i]).exists {
        CacheLookup::Miss
    } else {
        let out_min = match earliest(output_times(outputs)) {
            Some(t) => t,
            None => 0,
        };
        if out_min > latest(inputs) {
            CacheLookup::Hit
        } else {
            CacheLookup::Stale
        }
    }
}

/// `Hit` if all outputs exist and are newer than all inputs; `Miss` if
/// there is no output (a phony recipe always runs) or some output is
/// missing; `Stale` if some input is not older than the oldest output.
pub fn check_mtime(inputs: &Vec<Option<u128>>, outputs: &Vec<FileStat>) -> (r: Result<CacheLookup, Error>)
    ensures
        r matches Ok(l) && l == check_mtime_spec(inputs@, outputs@),
{
    if outputs.len() == 0 {
        return Ok(CacheLookup::Miss);
    }
    let mut k: usize = 0;
    while k < outputs.len()
        invariant
            k <= outputs@.len(),
            forall|i: int| 0 <= i < k ==> (#[trigger] outputs@[i]).exists,
        decreases outputs@.len() - k,
    {
        if !outputs[k].exists {
            return Ok(CacheLookup::Miss);
        }
        k += 1;
    }
    let mut max_in: u128 = 0;
    let mut i: usize = 0;
    while i < inputs.len()
        invariant
            i <= inputs@.len(),
            max_in as int == latest(inputs@.take(i as int)),
        decreases inputs@.len() - i,
    {
        assert(inputs@.take(i + 1).drop_last() =~= inputs@.take(i as int));
        match inputs[i] {
            Some(t) => {
                if t > max_in {
                    max_in = t;
                }
            },
            None => {},
        }
        i += 1;
    }
    assert(inputs@.take(inputs@.len() as int) =~= inputs@);
    let ghost times = output_times(outputs@);
    let mut min_out: Option<u128> = None;
    let mut j: usize = 0;
    while j < outputs.len()
        invariant
            j <= outputs@.len(),
            times == output_times(outputs@),
            match earliest(times.take(j as int)) {
                Some(x) => min_out matches Some(m) && m as int == x,
                None => min_out is None,
            },
        decreases outputs@.len() - j,
    {
        assert(times.take(j + 1).drop_last() =~= times.take(j as int));
        assert(times[j as int] == outputs@[j as int].modified);
        match outputs[j].modified {
            Some(t) => {
                min_out = match min_out {
                    Some(m) => if t < m {
                        Some(t)
                    } else {
                        Some(m)
                    },
                    None => Some(t),
                };
            },
            None => {},
        }
        j += 1;
    }
    assert(times.take(outputs@.len() as int) =~= times);
    let lo: u128 = match min_out {
        Some(m) => m,
        None => 0,
    };
    if lo > max_in {
        Ok(CacheLookup::Hit)
    } else {
        Ok(CacheLookup::Stale)
    }
}

} // verus!
