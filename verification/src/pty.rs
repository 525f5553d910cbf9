//! The local terminal: which program it runs, and what can be sent to it.

use vstd::prelude::*;
use vstd::string::StringExecFns;

verus! {

/// A unit of work for a local terminal.
#[derive(Debug, Clone, PartialEq, Eq)]
pub enum PtyMsg {
    /// Text for the program, written as it is.
    Write(String),
    /// The terminal window changed size.
    Resize { cols: u16, rows: u16 },
}

/// A program and its arguments.
#[derive(Debug, Clone, PartialEq, Eq)]
pub struct ShellCommand {
    pub program: String,
    pub args: Vec<String>,
}

/// The model of a [`ShellCommand`].
pub struct ShellCommandView {
    pub program: Seq<char>,
    pub args: Seq<Seq<char>>,
}

/// The models of a list of strings.
pub open spec fn string_views(list: Seq<String>) -> Seq<Seq<char>> {
    list.map_values(|s: String| s@)
}

impl View for ShellCommand {
    type V = ShellCommandView;

    open spec fn view(&self) -> ShellCommandView {
        ShellCommandView { program: self.program@, args: string_views(self.args@) }
    }
}

/// The command that a local terminal runs: the program asked for with its
/// arguments, or else the system's shell, which is `cmd.exe /K` on Windows
/// and `/bin/bash` elsewhere. Arguments without a program are not used.
pub open spec fn command_for(
    program: Option<Seq<char>>,
    args: Option<Seq<Seq<char>>>,
    windows: bool,
) -> ShellCommandView {
    match program {
        Some(p) => ShellCommandView {
            program: p,
            args: match args {
                Some(a) => a,
                None => Seq::empty(),
            },
        },
        None => if windows {
            ShellCommandView { program: "cmd.exe"@, args: seq!["/K"@] }
        } else {
            ShellCommandView { program: "/bin/bash"@, args: Seq::empty() }
        },
    }
}

/// The command that a local terminal runs.
pub fn shell_command(program: Option<String>, args: Option<Vec<String>>, windows: bool) -> (command:
    ShellCommand)
    ensures
        command@ == command_for(
            match program {
                Some(p) => Some(p@),
                None => None,
            },
            match args {
                Some(a) => Some(string_views(a@)),
                None => None,
            },
            windows,
        ),
{
    match program {
        Some(p) => {
            let args = match args {
                Some(a) => a,
                None => Vec::new(),
            };
            assert(string_views(Seq::<String>::empty()) =~= Seq::<Seq<char>>::empty());
            ShellCommand { program: p, args }
        },
        None => if windows {
            let args = vec![String::from_str("/K")];
            assert(string_views(args@) =~= seq!["/K"@]);
            ShellCommand { program: String::from_str("cmd.exe"), args }
        } else {
            let args: Vec<String> = Vec::new();
            assert(string_views(args@) =~= Seq::<Seq<char>>::empty());
            ShellCommand { program: String::from_str("/bin/bash"), args }
        },
    }
}

} // verus!
