//! A command line for a system tool: a program and its arguments.
use vstd::prelude::*;

verus! {

/// A program to run and the arguments to give it.
pub struct ProcessCommand {
    pub program: String,
    pub args: Vec<String>,
}

/// The mathematical value of a [`ProcessCommand`].
pub struct CommandView {
    pub program: Seq<char>,
    pub args: Seq<Seq<char>>,
}

/// The character sequences of a list of strings.
pub open spec fn strings_view(v: Seq<String>) -> Seq<Seq<char>> {
    v.map_values(|s: String| s@)
}

impl View for ProcessCommand {
    type V = CommandView;

    open spec fn view(&self) -> CommandView {
        CommandView { program: self.program@, args: strings_view(self.args@) }
    }
}

/// The mathematical values of a list of commands.
pub open spec fn commands_view(v: Seq<ProcessCommand>) -> Seq<CommandView> {
    v.map_values(|c: ProcessCommand| c@)
}

} // verus!
