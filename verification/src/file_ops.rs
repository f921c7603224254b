//! The file-operations menu: which menu entry a line picks, which shell command
//! carries out an operation, and what is reported of the command's outcome.
use vstd::prelude::*;

verus! {

/// An operation that the menu offers, with the paths and text it needs.
#[derive(Debug)]
pub enum FileOperation {
    /// List the files of a directory.
    List(String),
    /// Show the contents of a file.
    Display(String),
    /// Create a file (the path) holding the text (the content).
    Create(String, String),
    /// Remove a file.
    Remove(String),
    /// Show the working directory.
    Pwd,
}

/// The program to run and its arguments.
#[derive(Debug)]
pub struct CommandPlan {
    pub program: String,
    pub args: Vec<String>,
}

/// How running a command went.
#[derive(Clone, Copy, Debug, PartialEq, Eq, Structural)]
pub enum CommandOutcome {
    /// It ran and exited with success.
    Succeeded,
    /// It ran and exited with failure.
    Failed,
    /// It could not be started.
    NotLaunched,
}

/// A line for the user, and whether it goes to the error stream.
#[derive(Debug)]
pub struct Message {
    pub to_stderr: bool,
    pub text: String,
}

/// A menu entry.
#[derive(Clone, Copy, Debug, PartialEq, Eq, Structural)]
pub enum MenuChoice {
    ListFiles,
    DisplayFile,
    CreateFile,
    RemoveFile,
    PrintDirectory,
    Exit,
    Invalid,
}

/// The menu entry that the line `s` picks.
pub open spec fn spec_menu_choice(s: Seq<char>) -> MenuChoice {
    if s == seq!['1'] {
        MenuChoice::ListFiles
    } else if s == seq!['2'] {
        MenuChoice::DisplayFile
    } else if s == seq!['3'] {
        MenuChoice::CreateFile
    } else if s == seq!['4'] {
        MenuChoice::RemoveFile
    } else if s == seq!['5'] {
        MenuChoice::PrintDirectory
    } else if s == seq!['0'] {
        MenuChoice::Exit
    } else {
        MenuChoice::Invalid
    }
}

/// The menu entry that `choice` picks: "1" to "5" the operations, "0" the
/// exit, anything else is invalid.
pub fn parse_menu_choice(choice: &str) -> (m: MenuChoice)
    ensures
        m == spec_menu_choice(choice@),
{
    if choice.unicode_len() != 1 {
        return MenuChoice::Invalid;
    }
    let c = choice.get_char(0);
    assert(choice@ =~= seq![c]);
    if c == '1' {
        MenuChoice::ListFiles
    } else if c == '2' {
        MenuChoice::DisplayFile
    } else if c == '3' {
        MenuChoice::CreateFile
    } else if c == '4' {
        MenuChoice::RemoveFile
    } else if c == '5' {
        MenuChoice::PrintDirectory
    } else if c == '0' {
        MenuChoice::Exit
    } else {
        MenuChoice::Invalid
    }
}

/// Only the single characters "0" to "5" pick a menu entry, each its own: "0"
/// exits, "1" to "5" pick the five operations in menu order, and every other
/// line, empty or longer or any other character, is invalid.
pub proof fn law_menu_choices(s: Seq<char>)
    ensures
        spec_menu_choice(s) == MenuChoice::Exit <==> s == seq!['0'],
        spec_menu_choice(s) == MenuChoice::ListFiles <==> s == seq!['1'],
        spec_menu_choice(s) == MenuChoice::DisplayFile <==> s == seq!['2'],
        spec_menu_choice(s) == MenuChoice::CreateFile <==> s == seq!['3'],
        spec_menu_choice(s) == MenuChoice::RemoveFile <==> s == seq!['4'],
        spec_menu_choice(s) == MenuChoice::PrintDirectory <==> s == seq!['5'],
        spec_menu_choice(s) != MenuChoice::Invalid ==> s.len() == 1 && '0' <= s[0] <= '5',
        (s.len() != 1 || !('0' <= s[0] <= '5')) ==> spec_menu_choice(s) == MenuChoice::Invalid,
{
    if s.len() == 1 {
        assert(s == seq![s[0]]);
    }
}

/// `a`, `b` and `c` joined.
fn join3(a: &str, b: &str, c: &str) -> (r: String)
    ensures
        r@ == a@ + b@ + c@,
{
    String::from_str(a).concat(b).concat(c)
}

/// `a` and `b` joined.
fn join2(a: &str, b: &str) -> (r: String)
    ensures
        r@ == a@ + b@,
{
    String::from_str(a).concat(b)
}

/// The shell line that writes `content` into the file `path`.
pub open spec fn create_line(path: Seq<char>, content: Seq<char>) -> Seq<char> {
    "echo '"@ + content + "' > "@ + path
}

/// The command that carries out the operation: `ls`, `cat` and `rm` on the
/// path, `sh -c` with an `echo` redirected into the file, and `pwd`.
pub fn plan_command(op: &FileOperation) -> (p: CommandPlan)
    ensures
        match op {
            FileOperation::List(dir) => p.program@ == "ls"@ && p.args@.len() == 1 && p.args@[0]@ == dir@,
            FileOperation::Display(path) => p.program@ == "cat"@ && p.args@.len() == 1 && p.args@[0]@
                == path@,
            FileOperation::Create(path, content) => p.program@ == "sh"@ && p.args@.len() == 2
                && p.args@[0]@ == "-c"@ && p.args@[1]@ == create_line(path@, content@),
            FileOperation::Remove(path) => p.program@ == "rm"@ && p.args@.len() == 1 && p.args@[0]@
                == path@,
            FileOperation::Pwd => p.program@ == "pwd"@ && p.args@.len() == 0,
        },
{
    match op {
        FileOperation::List(dir) => {
            let mut args: Vec<String> = Vec::new();
            args.push(dir.clone());
            CommandPlan { program: String::from_str("ls"), args }
        },
        FileOperation::Display(path) => {
            let mut args: Vec<String> = Vec::new();
            args.push(path.clone());
            CommandPlan { program: String::from_str("cat"), args }
        },
        FileOperation::Create(path, content) => {
            let line = join2(join3("echo '", content.as_str(), "' > ").as_str(), path.as_str());
            let mut args: Vec<String> = Vec::new();
            args.push(String::from_str("-c"));
            args.push(line);
            CommandPlan { program: String::from_str("sh"), args }
        },
        FileOperation::Remove(path) => {
            let mut args: Vec<String> = Vec::new();
            args.push(path.clone());
            CommandPlan { program: String::from_str("rm"), args }
        },
        FileOperation::Pwd => CommandPlan { program: String::from_str("pwd"), args: Vec::new() },
    }
}

/// What the user is told of the outcome, to the error stream or not; `None`
/// when the command's own output says enough.
pub open spec fn spec_outcome_message(op: FileOperation, outcome: CommandOutcome) -> Option<(bool, Seq<char>)> {
    match op {
        FileOperation::List(dir) => match outcome {
            CommandOutcome::Succeeded => None,
            CommandOutcome::Failed => Some((true, "Failed to list files in directory: "@ + dir@)),
            CommandOutcome::NotLaunched => Some((true, "Failed to execute ls"@)),
        },
        FileOperation::Display(path) => match outcome {
            CommandOutcome::Succeeded => None,
            CommandOutcome::Failed => Some((true, "Failed to display file: "@ + path@)),
            CommandOutcome::NotLaunched => Some((true, "Failed to execute cat"@)),
        },
        FileOperation::Create(path, _) => match outcome {
            CommandOutcome::Succeeded => Some((false, "File '"@ + path@ + "' created successfully."@)),
            CommandOutcome::Failed => Some((true, "Failed to create file: "@ + path@)),
            CommandOutcome::NotLaunched => Some((true, "Failed to execute file creation command"@)),
        },
        FileOperation::Remove(path) => match outcome {
            CommandOutcome::Succeeded => Some((false, "File '"@ + path@ + "' removed successfully."@)),
            CommandOutcome::Failed => Some((true, "Failed to remove file: "@ + path@)),
            CommandOutcome::NotLaunched => Some((true, "Failed to execute rm"@)),
        },
        FileOperation::Pwd => match outcome {
            CommandOutcome::Succeeded => None,
            CommandOutcome::Failed => Some((true, "Failed to print working directory"@)),
            CommandOutcome::NotLaunched => Some((true, "Failed to execute pwd"@)),
        },
    }
}

/// What the user is told of how the operation's command went.
pub fn outcome_message(op: &FileOperation, outcome: CommandOutcome) -> (m: Option<Message>)
    ensures
        match m {
            Some(msg) => spec_outcome_message(*op, outcome) == Some((msg.to_stderr, msg.text@)),
            None => spec_outcome_message(*op, outcome) is None,
        },
{
    match op {
        FileOperation::List(dir) => match outcome {
            CommandOutcome::Succeeded => None,
            CommandOutcome::Failed => Some(
                Message { to_stderr: true, text: join2("Failed to list files in directory: ", dir.as_str()) },
            ),
            CommandOutcome::NotLaunched => Some(
                Message { to_stderr: true, text: String::from_str("Failed to execute ls") },
            ),
        },
        FileOperation::Display(path) => match outcome {
            CommandOutcome::Succeeded => None,
            CommandOutcome::Failed => Some(
                Message { to_stderr: true, text: join2("Failed to display file: ", path.as_str()) },
            ),
            CommandOutcome::NotLaunched => Some(
                Message { to_stderr: true, text: String::from_str("Failed to execute cat") },
            ),
        },
        FileOperation::Create(path, _) => match outcome {
            CommandOutcome::Succeeded => Some(
                Message {
                    to_stderr: false,
                    text: join3("File '", path.as_str(), "' created successfully."),
                },
            ),
            CommandOutcome::Failed => Some(
                Message { to_stderr: true, text: join2("Failed to create file: ", path.as_str()) },
            ),
            CommandOutcome::NotLaunched => Some(
                Message {
                    to_stderr: true,
                    text: String::from_str("Failed to execute file creation command"),
                },
            ),
        },
        FileOperation::Remove(path) => match outcome {
            CommandOutcome::Succeeded => Some(
                Message {
                    to_stderr: false,
                    text: join3("File '", path.as_str(), "' removed successfully."),
                },
            ),
            CommandOutcome::Failed => Some(
                Message { to_stderr: true, text: join2("Failed to remove file: ", path.as_str()) },
            ),
            CommandOutcome::NotLaunched => Some(
                Message { to_stderr: true, text: String::from_str("Failed to execute rm") },
            ),
        },
        FileOperation::Pwd => match outcome {
            CommandOutcome::Succeeded => None,
            CommandOutcome::Failed => Some(
                Message { to_stderr: true, text: String::from_str("Failed to print working directory") },
            ),
            CommandOutcome::NotLaunched => Some(
                Message { to_stderr: true, text: String::from_str("Failed to execute pwd") },
            ),
        },
    }
}

/// Every failure is reported, on the error stream; a success is reported, on
/// the standard stream, exactly for the operations that change a file.
pub proof fn law_failures_reported(op: FileOperation, outcome: CommandOutcome)
    ensures
        outcome != CommandOutcome::Succeeded ==> (spec_outcome_message(op, outcome) matches Some(
            msg,
        ) && msg.0),
        outcome == CommandOutcome::Succeeded ==> (spec_outcome_message(op, outcome) is Some <==> (
        op is Create || op is Remove)),
        spec_outcome_message(op, outcome) matches Some(msg) ==> (msg.0 <==> outcome
            != CommandOutcome::Succeeded),
{
}

} // verus!
