use oxid::command::{Command, CommandError};

#[test]
fn parse_known_commands() {
    assert!(matches!(Command::parse("qa"), Ok(Command::QuitAll)));
    assert!(matches!(Command::parse("wa"), Ok(Command::SaveAll)));
    assert!(matches!(Command::parse("wqa"), Ok(Command::SaveQuitAll)));
    assert!(matches!(Command::parse("bn"), Ok(Command::NextBuffer)));
    assert!(matches!(Command::parse("bp"), Ok(Command::PreviousBuffer)));
    assert!(matches!(Command::parse("  qa  "), Ok(Command::QuitAll)));
}

#[test]
fn parse_file_commands() {
    match Command::parse("q main.rs") {
        Ok(Command::QuitFile(f)) => assert_eq!(f, "main.rs"),
        _ => panic!("q with a file name must parse"),
    }
    match Command::parse("w main.rs") {
        Ok(Command::SaveFile(f)) => assert_eq!(f, "main.rs"),
        _ => panic!("w with a file name must parse"),
    }
    match Command::parse("e other.rs") {
        Ok(Command::SaveFile(f)) => assert_eq!(f, "other.rs"),
        _ => panic!("e with a file name must parse"),
    }
}

#[test]
fn parse_rejects_bad_commands() {
    assert!(matches!(Command::parse(""), Err(CommandError::Empty)));
    assert!(matches!(Command::parse("   "), Err(CommandError::Empty)));
    assert!(matches!(
        Command::parse("q"),
        Err(CommandError::MissingFileName)
    ));
    assert!(matches!(
        Command::parse("w   "),
        Err(CommandError::MissingFileName)
    ));
    assert!(matches!(
        Command::parse("frobnicate"),
        Err(CommandError::UnknownCommand)
    ));
}
