use vstd::prelude::*;

verus! {

/// Whether a watcher-driven status refresh runs now or after the remaining
/// cooldown (in milliseconds).
#[derive(Debug, Clone, Copy, PartialEq, Eq)]
pub enum RefreshDecision {
    Now,
    Later(u64),
}

/// Leading-edge cooldown: run at once unless the previous refresh finished
/// less than `cooldown` ago, in which case wait for the rest of it.
pub fn refresh_decision(last: Option<u64>, now: u64, cooldown: u64) -> (d: RefreshDecision)
    ensures
        match last {
            None => d == RefreshDecision::Now,
            Some(l) => {
                let elapsed: int = if now >= l { now - l } else { 0 };
                if elapsed < cooldown {
                    d == RefreshDecision::Later((cooldown - elapsed) as u64)
                } else {
                    d == RefreshDecision::Now
                }
            },
        },
{
    if let Some(l) = last {
        let elapsed: u64 = if now >= l { now - l } else { 0 };
        if elapsed < cooldown {
            return RefreshDecision::Later(cooldown - elapsed);
        }
    }
    RefreshDecision::Now
}

} // verus!
