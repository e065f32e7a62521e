use vstd::prelude::*;

verus! {

/// Outcome of running one command line in a shell.
#[derive(Clone, Copy, Debug, PartialEq, Eq, Structural)]
pub enum CommandExecutionResult {
    /// The command ran and exited successfully.
    Success,
    /// The command was skipped because an earlier run already built it.
    Cached,
    /// The command ran, but its exit status reports a failure.
    Failed,
    /// The process could not be spawned or awaited at all.
    Error,
    /// No attempt has been made yet.
    Unreached,
}

impl Default for CommandExecutionResult {
    fn default() -> (r: Self)
        ensures
            r == CommandExecutionResult::Unreached,
    {
        CommandExecutionResult::Unreached
    }
}

/// The classification of a process completion: `Ok(s)` is a process that ran
/// to completion, `s` telling whether its exit status reports success; `Err`
/// is a process that never completed.
pub open spec fn classification<E>(completion: Result<bool, E>) -> CommandExecutionResult {
    match completion {
        Ok(true) => CommandExecutionResult::Success,
        Ok(false) => CommandExecutionResult::Failed,
        Err(_) => CommandExecutionResult::Error,
    }
}

/// The outcomes that a classification can produce.
pub open spec fn is_terminal(r: CommandExecutionResult) -> bool {
    r is Success || r is Failed || r is Error
}

impl CommandExecutionResult {
    /// Classifies a process completion, borrowed so that the completion can
    /// still be inspected (or propagated) afterwards.
    pub fn from_completion<E>(completion: &Result<bool, E>) -> (r: Self)
        ensures
            r == classification(*completion),
            is_terminal(r),
            r is Success <==> (*completion matches Ok(s) && s),
            r is Failed <==> (*completion matches Ok(s) && !s),
            r is Error <==> completion.is_err(),
    {
        match completion {
            Ok(success) => {
                if *success {
                    CommandExecutionResult::Success
                } else {
                    CommandExecutionResult::Failed
                }
            },
            Err(_) => CommandExecutionResult::Error,
        }
    }

    /// Whether this outcome stops a build: the process failed or never ran.
    pub fn is_failure(&self) -> (r: bool)
        ensures
            r <==> (*self is Failed || *self is Error),
    {
        match self {
            CommandExecutionResult::Failed | CommandExecutionResult::Error => true,
            _ => false,
        }
    }
}

} // verus!
