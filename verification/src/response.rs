//! What the provider's answer must meet before anything is reported.

use vstd::prelude::*;

verus! {

/// Whether an HTTP status stands for success: the codes from 200 to 299.
pub open spec fn is_success(status: int) -> bool {
    200 <= status <= 299
}

/// An answer whose HTTP status is no success.
#[derive(Clone, Copy, Debug, PartialEq, Eq, Structural)]
pub struct Rejected {
    /// The status that came back.
    pub status: u16,
}

/// Accepts an answer by its HTTP status: every status but a success is
/// refused.
pub fn check_status(status: u16) -> (r: Result<(), Rejected>)
    ensures
        match r {
            Ok(_) => is_success(status as int),
            Err(e) => !is_success(status as int) && e.status == status,
        },
{
    if 200 <= status && status <= 299 {
        Ok(())
    } else {
        Err(Rejected { status })
    }
}

/// An answer that names no weather condition.
#[derive(Clone, Copy, Debug, PartialEq, Eq, Structural)]
pub struct NoCondition;

/// Picks the description to report from those the provider sent: the first.
/// An answer with none is refused.
pub fn first_description(descriptions: &Vec<String>) -> (r: Result<String, NoCondition>)
    ensures
        match r {
            Ok(text) => descriptions@.len() > 0 && text@ == descriptions@[0]@,
            Err(_) => descriptions@.len() == 0,
        },
{
    if descriptions.len() == 0 {
        Err(NoCondition)
    } else {
        Ok(descriptions[0].clone())
    }
}

} // verus!
