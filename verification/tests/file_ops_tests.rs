use coursework::file_ops::{
    outcome_message, parse_menu_choice, plan_command, CommandOutcome, FileOperation, MenuChoice,
};

#[test]
fn menu_choices() {
    assert_eq!(parse_menu_choice("1"), MenuChoice::ListFiles);
    assert_eq!(parse_menu_choice("2"), MenuChoice::DisplayFile);
    assert_eq!(parse_menu_choice("3"), MenuChoice::CreateFile);
    assert_eq!(parse_menu_choice("4"), MenuChoice::RemoveFile);
    assert_eq!(parse_menu_choice("5"), MenuChoice::PrintDirectory);
    assert_eq!(parse_menu_choice("0"), MenuChoice::Exit);
    assert_eq!(parse_menu_choice("6"), MenuChoice::Invalid);
    assert_eq!(parse_menu_choice(""), MenuChoice::Invalid);
    assert_eq!(parse_menu_choice("11"), MenuChoice::Invalid);
    assert_eq!(parse_menu_choice(" 1"), MenuChoice::Invalid);
}

#[test]
fn commands_for_each_operation() {
    let p = plan_command(&FileOperation::List("/tmp".to_string()));
    assert_eq!((p.program.as_str(), p.args.clone()), ("ls", vec!["/tmp".to_string()]));
    let p = plan_command(&FileOperation::Display("a.txt".to_string()));
    assert_eq!((p.program.as_str(), p.args.clone()), ("cat", vec!["a.txt".to_string()]));
    let p = plan_command(&FileOperation::Create("b.txt".to_string(), "hello world".to_string()));
    assert_eq!(p.program, "sh");
    assert_eq!(p.args, vec!["-c".to_string(), "echo 'hello world' > b.txt".to_string()]);
    let p = plan_command(&FileOperation::Remove("c.txt".to_string()));
    assert_eq!((p.program.as_str(), p.args.clone()), ("rm", vec!["c.txt".to_string()]));
    let p = plan_command(&FileOperation::Pwd);
    assert_eq!(p.program, "pwd");
    assert!(p.args.is_empty());
}

fn message(op: FileOperation, outcome: CommandOutcome) -> Option<(bool, String)> {
    outcome_message(&op, outcome).map(|m| (m.to_stderr, m.text))
}

#[test]
fn messages_for_outcomes() {
    let list = || FileOperation::List("d".to_string());
    assert_eq!(message(list(), CommandOutcome::Succeeded), None);
    assert_eq!(
        message(list(), CommandOutcome::Failed),
        Some((true, "Failed to list files in directory: d".to_string()))
    );
    assert_eq!(message(list(), CommandOutcome::NotLaunched), Some((true, "Failed to execute ls".to_string())));
    let display = || FileOperation::Display("f".to_string());
    assert_eq!(message(display(), CommandOutcome::Succeeded), None);
    assert_eq!(message(display(), CommandOutcome::Failed), Some((true, "Failed to display file: f".to_string())));
    assert_eq!(message(display(), CommandOutcome::NotLaunched), Some((true, "Failed to execute cat".to_string())));
    let create = || FileOperation::Create("f".to_string(), "x".to_string());
    assert_eq!(
        message(create(), CommandOutcome::Succeeded),
        Some((false, "File 'f' created successfully.".to_string()))
    );
    assert_eq!(message(create(), CommandOutcome::Failed), Some((true, "Failed to create file: f".to_string())));
    assert_eq!(
        message(create(), CommandOutcome::NotLaunched),
        Some((true, "Failed to execute file creation command".to_string()))
    );
    let remove = || FileOperation::Remove("f".to_string());
    assert_eq!(
        message(remove(), CommandOutcome::Succeeded),
        Some((false, "File 'f' removed successfully.".to_string()))
    );
    assert_eq!(message(remove(), CommandOutcome::Failed), Some((true, "Failed to remove file: f".to_string())));
    assert_eq!(message(remove(), CommandOutcome::NotLaunched), Some((true, "Failed to execute rm".to_string())));
    assert_eq!(message(FileOperation::Pwd, CommandOutcome::Succeeded), None);
    assert_eq!(
        message(FileOperation::Pwd, CommandOutcome::Failed),
        Some((true, "Failed to print working directory".to_string()))
    );
    assert_eq!(
        message(FileOperation::Pwd, CommandOutcome::NotLaunched),
        Some((true, "Failed to execute pwd".to_string()))
    );
}
