//! A command to be run as a process, described as plain text.

use crate::common::text::line_views;
use vstd::prelude::*;
use vstd::string::StringExecFns;

verus! {

/// A program and the arguments to run it with, in order.
#[derive(Debug)]
pub struct Invocation {
    pub program: String,
    pub args: Vec<String>,
}

/// The mathematical value of an [`Invocation`].
pub struct InvocationView {
    pub program: Seq<char>,
    pub args: Seq<Seq<char>>,
}

impl View for Invocation {
    type V = InvocationView;

    open spec fn view(&self) -> InvocationView {
        InvocationView { program: self.program@, args: line_views(self.args@) }
    }
}

impl Invocation {
    /// The command that runs `program` without arguments.
    pub fn new(program: &str) -> (command: Self)
        ensures
            command@ == (InvocationView { program: program@, args: Seq::empty() }),
    {
        let command = Invocation { program: String::from_str(program), args: Vec::new() };
        assert(command@.args =~= Seq::<Seq<char>>::empty());
        command
    }

    /// The same command with one more argument at the end.
    pub fn arg(self, value: &str) -> (command: Self)
        ensures
            command@ == (InvocationView {
                program: self@.program,
                args: self@.args.push(value@),
            }),
    {
        let mut command = self;
        command.args.push(String::from_str(value));
        assert(command@.args =~= self@.args.push(value@));
        command
    }
}

/// An error of the operating system, which std keeps opaque.
#[verifier::external_type_specification]
#[verifier::external_body]
pub struct ExIoError(std::io::Error);

/// What a process left behind that was run to its end with its output captured.
#[derive(Debug)]
pub struct Captured {
    /// Whether the process reported success, that is, exit status zero.
    pub success: bool,
    /// What it wrote to standard output.
    pub stdout: Vec<u8>,
    /// What it wrote to standard error.
    pub stderr: Vec<u8>,
}

} // verus!
