use vstd::prelude::*;

verus! {

/// True when a batch of `rows` rows does not fit in what is left of the limit,
/// or nothing is left of it: the batch is cut (to nothing, in the latter case)
/// and the scan stops after it.
pub open spec fn reaches_limit(remain: Option<usize>, rows: nat) -> bool {
    match remain {
        Some(k) => k < rows || k == 0,
        None => false,
    }
}

/// How many rows of a batch of `rows` rows are let through.
pub open spec fn kept_rows(remain: Option<usize>, rows: nat) -> nat {
    match remain {
        Some(k) => if k < rows { k as nat } else { rows },
        None => rows,
    }
}

/// What is left of the limit once a batch of `rows` rows went through.
pub open spec fn remain_after(remain: Option<usize>, rows: nat) -> Option<nat> {
    match remain {
        Some(k) => if k < rows { Some(0nat) } else { Some((k - rows) as nat) },
        None => None,
    }
}

/// The outcome of holding one batch against the row limit.
pub struct LimitStep {
    /// What is left of the limit afterwards (`None`: no limit).
    pub remain: Option<usize>,
    /// How many leading rows of the batch are emitted.
    pub keep: usize,
    /// Whether the limit is reached with this batch, which ends the scan.
    pub reached: bool,
}

/// Holds a batch of `rows` rows against `remain`, the number of rows that may
/// still be emitted. While some of the limit is left, a batch that fits goes
/// through whole and uses up its rows; one that does not is cut to what is
/// left, and the limit is reached. With nothing left, any batch is cut to no
/// rows and the limit is reached.
pub fn apply_limit(remain: Option<usize>, rows: usize) -> (r: LimitStep)
    ensures
        r.keep == kept_rows(remain, rows as nat),
        r.reached == reaches_limit(remain, rows as nat),
        r.remain is Some == remain is Some,
        r.remain is Some ==> remain_after(remain, rows as nat) == Some(r.remain->0 as nat),
{
    match remain {
        None => LimitStep { remain: None, keep: rows, reached: false },
        Some(k) => {
            if k < rows || k == 0 {
                LimitStep { remain: Some(0), keep: k, reached: true }
            } else {
                LimitStep { remain: Some(k - rows), keep: rows, reached: false }
            }
        },
    }
}

} // verus!
