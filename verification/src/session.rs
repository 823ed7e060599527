//! Supervision of a venue's sessions: a plan must hold at least one session, and when
//! one session fails the rest are stopped and drained, the first error winning.

use vstd::prelude::*;

verus! {

broadcast use vstd::string::group_string_axioms;

/// A venue's planned sessions, refused when there are none.
pub fn require_session_specs<T>(venue_id: &str, plan: Vec<T>) -> (r: Result<Vec<T>, String>)
    ensures
        plan@.len() == 0 ==> (r matches Err(m) && m@ == "venue "@ + venue_id@ + ": empty plan"@),
        plan@.len() > 0 ==> (r matches Ok(p) && p@ == plan@),
{
    if plan.len() == 0 {
        let mut m = String::from_str("venue ");
        m.append(venue_id);
        m.append(": empty plan");
        Err(m)
    } else {
        Ok(plan)
    }
}

/// What the supervisor does after a session finishes.
#[derive(Debug, Clone, Copy, PartialEq, Eq, Structural)]
pub enum DrainAction {
    /// Keep waiting for the remaining sessions.
    Continue,
    /// The first failure: signal every sibling to stop and bound the wait by the drain
    /// deadline.
    StopSiblings,
}

/// The state of draining a venue's sessions: the first error seen, if any.
#[derive(Debug)]
pub struct SessionDrain {
    first_error: Option<String>,
}

impl SessionDrain {
    pub closed spec fn first(&self) -> Option<Seq<char>> {
        crate::config::opt_view(self.first_error)
    }

    /// No session has finished yet.
    pub fn new() -> (d: Self)
        ensures
            d.first() is None,
    {
        SessionDrain { first_error: None }
    }

    /// Records one finished session. Only the first error is kept, and only it asks to
    /// stop the siblings.
    pub fn on_result(&mut self, result: Result<(), String>) -> (a: DrainAction)
        ensures
            match result {
                Ok(()) => final(self).first() == old(self).first() && a == DrainAction::Continue,
                Err(e) => if old(self).first() is None {
                    final(self).first() == Some(e@) && a == DrainAction::StopSiblings
                } else {
                    final(self).first() == old(self).first() && a == DrainAction::Continue
                },
            },
    {
        match result {
            Ok(()) => DrainAction::Continue,
            Err(e) => {
                if self.first_error.is_none() {
                    self.first_error = Some(e);
                    DrainAction::StopSiblings
                } else {
                    DrainAction::Continue
                }
            },
        }
    }

    /// The error when the siblings did not finish before the drain deadline.
    pub fn deadline_error(&self) -> (r: Option<String>)
        ensures
            match self.first() {
                Some(f) => r matches Some(m) && m@ == f + "; sibling session drain deadline exceeded"@,
                None => r is None,
            },
    {
        match &self.first_error {
            Some(f) => {
                let mut m = f.clone();
                m.append("; sibling session drain deadline exceeded");
                Some(m)
            },
            None => None,
        }
    }

    /// The outcome once every session has finished: the first error, if any.
    pub fn finish(self) -> (r: Result<(), String>)
        ensures
            match self.first() {
                Some(f) => r matches Err(m) && m@ == f,
                None => r is Ok,
            },
    {
        match self.first_error {
            Some(e) => Err(e),
            None => Ok(()),
        }
    }
}

/// The first error of a sequence of session results.
pub open spec fn first_session_error(results: Seq<Result<(), String>>) -> Option<Seq<char>>
    decreases results.len(),
{
    if results.len() == 0 {
        None
    } else {
        match results[0] {
            Err(e) => Some(e@),
            Ok(()) => first_session_error(results.drop_first()),
        }
    }
}

/// Feeding every result to a drain leaves exactly the first error, and asks to stop the
/// siblings at most once.
pub proof fn lemma_drain_keeps_first_error(results: Seq<Result<(), String>>, first: Option<Seq<char>>)
    ensures
        first is Some ==> drained(first, results) == first,
        first is None ==> drained(first, results) == first_session_error(results),
    decreases results.len(),
{
    if results.len() > 0 {
        let next = match results[0] {
            Err(e) => if first is None { Some(e@) } else { first },
            Ok(()) => first,
        };
        lemma_drain_keeps_first_error(results.drop_first(), next);
    }
}

/// The first error a drain holds after seeing `results`, starting from `first`.
pub open spec fn drained(first: Option<Seq<char>>, results: Seq<Result<(), String>>) -> Option<Seq<char>>
    decreases results.len(),
{
    if results.len() == 0 {
        first
    } else {
        let next = match results[0] {
            Err(e) => if first is None { Some(e@) } else { first },
            Ok(()) => first,
        };
        drained(next, results.drop_first())
    }
}


/// How a daemon task ended: it returned (with its result), or joining it failed.
#[derive(Debug, PartialEq, Eq)]
pub enum TaskExit {
    Returned(Result<(), String>),
    JoinFailed(String),
}

/// Why the supervisor shuts down when a daemon task ends: every task is meant to run
/// until shutdown, so even a clean return is unexpected.
pub open spec fn task_exit_text(exit: TaskExit) -> Seq<char> {
    match exit {
        TaskExit::Returned(Ok(())) => "daemon task exited unexpectedly"@,
        TaskExit::Returned(Err(e)) => "daemon task failed: "@ + e@,
        TaskExit::JoinFailed(e) => "daemon task join failure: "@ + e@,
    }
}

pub fn task_exit_error(exit: &TaskExit) -> (r: String)
    ensures
        r@ == task_exit_text(*exit),
{
    proof {
        reveal_strlit("daemon task exited unexpectedly");
        reveal_strlit("daemon task failed: ");
        reveal_strlit("daemon task join failure: ");
    }
    match exit {
        TaskExit::Returned(Ok(())) => String::from_str("daemon task exited unexpectedly"),
        TaskExit::Returned(Err(e)) => {
            let mut m = String::from_str("daemon task failed: ");
            m.append(e.as_str());
            m
        },
        TaskExit::JoinFailed(e) => {
            let mut m = String::from_str("daemon task join failure: ");
            m.append(e.as_str());
            m
        },
    }
}
} // verus!
