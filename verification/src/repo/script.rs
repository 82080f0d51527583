//! Statements to run in order, and what to return once all of them ran.
//!
//! The library decides what is written; running a statement is left to its
//! caller. A script hands out one statement at a time and is told whether it
//! succeeded. The first failure ends the script: the statements behind it
//! are never handed out.

use crate::database::query::{Query, QueryView};
use crate::error::Error;
use vstd::prelude::*;

verus! {

/// The views of a sequence of statements.
pub open spec fn query_views(queries: Seq<Query>) -> Seq<QueryView> {
    queries.map_values(|query: Query| query@)
}

/// Statements still to run, in order, and the outcome to return when none is
/// left.
#[derive(Debug)]
pub struct Script<T> {
    /// The statements still to run, the next one last.
    pub(crate) stack: Vec<Query>,
    pub(crate) outcome: T,
}

/// How far a script has come.
#[derive(Debug)]
pub enum Progress<T> {
    /// The statement to run now, and the script to resume once it ran.
    Execute(Query, Script<T>),
    /// The script has ended: with its outcome, or with the failure that
    /// ended it.
    Finished(Result<T, Error>),
}

impl<T> Script<T> {
    /// The statements that are still to run, in order.
    pub closed spec fn pending(self) -> Seq<QueryView> {
        query_views(self.stack@).reverse()
    }

    /// What the script returns when every statement ran.
    pub closed spec fn outcome(self) -> T {
        self.outcome
    }

    /// A script that runs `statements` in order and then returns `outcome`.
    pub fn new(statements: Vec<Query>, outcome: T) -> (script: Script<T>)
        ensures
            script.pending() == query_views(statements@),
            script.outcome() == outcome,
    {
        let ghost all = query_views(statements@);
        let mut statements = statements;
        let mut stack: Vec<Query> = Vec::new();
        while statements.len() > 0
            invariant
                all == query_views(statements@) + query_views(stack@).reverse(),
            decreases statements.len(),
        {
            let ghost left = statements@;
            let ghost piled = stack@;
            let statement = statements.pop().unwrap();
            stack.push(statement);
            proof {
                assert(query_views(left) == query_views(statements@).push(statement@));
                assert(query_views(piled.push(statement)) == query_views(piled).push(statement@));
                assert(query_views(statements@) + query_views(stack@).reverse() =~= query_views(
                    left,
                ) + query_views(piled).reverse());
            }
        }
        proof {
            assert(Seq::<QueryView>::empty() + query_views(stack@).reverse() == query_views(
                stack@,
            ).reverse());
        }
        Script { stack, outcome }
    }

    /// The number of statements that are still to run.
    pub fn remaining(&self) -> (count: usize)
        ensures
            count == self.pending().len(),
    {
        self.stack.len()
    }

    /// Starts or continues the script: the next statement to run, or the
    /// outcome where none is left.
    pub fn begin(self) -> (progress: Progress<T>)
        ensures
            self.pending().len() == 0 ==> progress == Progress::Finished(
                Ok::<T, Error>(self.outcome()),
            ),
            self.pending().len() > 0 ==> progress is Execute && progress->Execute_0@
                == self.pending()[0] && progress->Execute_1.pending() == self.pending().skip(1)
                && progress->Execute_1.outcome() == self.outcome(),
    {
        let mut script = self;
        let ghost piled = script.stack@;
        match script.stack.pop() {
            None => Progress::Finished(Ok(script.outcome)),
            Some(statement) => {
                proof {
                    assert(query_views(piled) == query_views(script.stack@).push(statement@));
                    assert(query_views(script.stack@).reverse() =~= query_views(
                        piled,
                    ).reverse().skip(1));
                }
                Progress::Execute(statement, script)
            },
        }
    }

    /// Continues the script after the statement it handed out has run. Where
    /// that statement failed, the script ends with a query failure and the
    /// statements behind it stay unrun; where it succeeded, the script goes
    /// on as `begin` says.
    pub fn resume(self, succeeded: bool) -> (progress: Progress<T>)
        ensures
            !succeeded ==> progress == Progress::Finished(Err::<T, Error>(Error::QueryFailure)),
            succeeded && self.pending().len() == 0 ==> progress == Progress::Finished(
                Ok::<T, Error>(self.outcome()),
            ),
            succeeded && self.pending().len() > 0 ==> progress is Execute
                && progress->Execute_0@ == self.pending()[0] && progress->Execute_1.pending()
                == self.pending().skip(1) && progress->Execute_1.outcome() == self.outcome(),
    {
        if succeeded {
            self.begin()
        } else {
            Progress::Finished(Err(Error::QueryFailure))
        }
    }
}

} // verus!
