//! The decisions of an exact transfer: what to do with the outcome of each
//! positional call until the whole buffer has gone through.

use vstd::prelude::*;
use crate::error::{fill_buffer_error, write_buffer_error, Error, ErrorKind};

verus! {

/// What an exact transfer does after one positional call on the part of the
/// buffer that is still to go.
#[derive(Clone, Copy, Debug, PartialEq, Eq)]
pub enum Step {
    /// That many bytes went through; go on behind them.
    Advance(usize),
    /// The call was interrupted with this failure; make it again.
    Retry(Error),
    /// Give up with this failure.
    Stop(Error),
}

/// The step that follows the outcome `res` of a read into a buffer that was
/// not empty: no byte means that the source has ended, an interruption is
/// retried, and every other failure is handed on as it came.
pub open spec fn spec_read_exact_step(res: Result<usize, Error>) -> Step {
    match res {
        Ok(n) => if n == 0 {
            Step::Stop(fill_buffer_error())
        } else {
            Step::Advance(n)
        },
        Err(e) => if e.kind == ErrorKind::Interrupted {
            Step::Retry(e)
        } else {
            Step::Stop(e)
        },
    }
}

#[verifier::when_used_as_spec(spec_read_exact_step)]
pub fn read_exact_step(res: Result<usize, Error>) -> (step: Step)
    ensures
        step == spec_read_exact_step(res),
{
    match res {
        Ok(n) => {
            if n == 0 {
                Step::Stop(fill_buffer_error())
            } else {
                Step::Advance(n)
            }
        },
        Err(e) => {
            if e.is_interrupted() {
                Step::Retry(e)
            } else {
                Step::Stop(e)
            }
        },
    }
}

/// The step that follows the outcome `res` of a write from a buffer that was
/// not empty: no byte means that the sink takes no more, an interruption is
/// retried, and every other failure is handed on as it came.
pub open spec fn spec_write_all_step(res: Result<usize, Error>) -> Step {
    match res {
        Ok(n) => if n == 0 {
            Step::Stop(write_buffer_error())
        } else {
            Step::Advance(n)
        },
        Err(e) => if e.kind == ErrorKind::Interrupted {
            Step::Retry(e)
        } else {
            Step::Stop(e)
        },
    }
}

#[verifier::when_used_as_spec(spec_write_all_step)]
pub fn write_all_step(res: Result<usize, Error>) -> (step: Step)
    ensures
        step == spec_write_all_step(res),
{
    match res {
        Ok(n) => {
            if n == 0 {
                Step::Stop(write_buffer_error())
            } else {
                Step::Advance(n)
            }
        },
        Err(e) => {
            if e.is_interrupted() {
                Step::Retry(e)
            } else {
                Step::Stop(e)
            }
        },
    }
}

} // verus!
