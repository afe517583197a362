//! The program of a watch: the commands it runs and where it goes on.

use vstd::prelude::*;
use crate::time::Span;

verus! {

/// A value that the daemon fills in when it runs a command.
#[derive(Clone, Copy, Debug, PartialEq, Eq, Structural)]
pub enum Placeholder {
    Path,
    Relative,
    Anchor,
    Watch,
    Parent,
    Time,
    Created,
    Deleted,
    Modified,
    RenamedFrom,
    RenamedTo,
    Excluded,
}

/// One piece of an argument.
#[derive(Debug)]
pub enum ArgPart {
    /// Text as it stands.
    Literal(String),
    /// A value of the daemon.
    Placeholder(Placeholder),
    /// A variable of the environment, with the text to use where it is unset.
    EnvVar { name: String, default: Option<String> },
}

/// One argument: its pieces without a gap.
#[derive(Debug)]
pub struct ArgTemplate {
    pub parts: Vec<ArgPart>,
}

/// One command.
#[derive(Debug)]
pub struct ExecAction {
    pub argv: Vec<ArgTemplate>,
    pub timeout: Option<Span>,
}

/// What one step runs.
#[derive(Debug)]
pub enum SpawnBody {
    /// A command.
    Exec(ExecAction),
    /// Commands, each reading what the one before it wrote.
    Pipe(Vec<ExecAction>),
}

/// Where a program goes on after a step.
#[derive(Clone, Copy, Debug, PartialEq, Eq, Structural)]
pub enum BranchTarget {
    /// At the step of this index.
    Continue(usize),
    /// Nowhere: the program has failed.
    Terminate,
    /// Nowhere: the program is done.
    Escape,
}

/// One step of a program.
#[derive(Debug)]
pub struct ProgramOp {
    pub body: SpawnBody,
    pub on_ok: BranchTarget,
    pub on_failed: BranchTarget,
}

/// A program.
#[derive(Debug)]
pub struct ActionProgram {
    pub ops: Vec<ProgramOp>,
}

} // verus!
