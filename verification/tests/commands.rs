use r_uwp::commands::{mouse1click, mousemoveabs, mousemouserel, setclipboard};
use r_uwp::commands::{Command, CommandError, CommandResponse, ParseCodeError};

#[test]
fn setclipboard_parse_keeps_text() {
    assert_eq!(setclipboard::parse("hello | world").unwrap(), "hello | world");
    assert_eq!(setclipboard::parse("").unwrap(), "");
}

#[test]
fn mouse1click_parse_never_fails() {
    assert!(mouse1click::parse().is_ok());
}

#[test]
fn ids_are_the_protocol_digits() {
    assert_eq!(mousemouserel::ID, "0");
    assert_eq!(mousemoveabs::ID, "1");
    assert_eq!(setclipboard::ID, "2");
    assert_eq!(mouse1click::ID, "3");
}

#[test]
fn mousemoverel_parse_two_numbers() {
    assert_eq!(mousemouserel::parse("10", "-5").unwrap(), (10, -5));
    assert_eq!(mousemouserel::parse("+7", "-2147483648").unwrap(), (7, i32::MIN));
    assert_eq!(mousemouserel::parse("2147483647", "007").unwrap(), (i32::MAX, 7));
}

#[test]
fn mousemoverel_parse_names_first_bad_argument() {
    match mousemouserel::parse("x", "y") {
        Err(CommandError::InvalidArgument(0, s)) => assert_eq!(s, "x"),
        other => panic!("unexpected {:?}", other),
    }
    match mousemouserel::parse("1", "y") {
        Err(CommandError::InvalidArgument(1, s)) => assert_eq!(s, "y"),
        other => panic!("unexpected {:?}", other),
    }
    match mousemouserel::parse("2147483648", "0") {
        Err(CommandError::InvalidArgument(0, s)) => assert_eq!(s, "2147483648"),
        other => panic!("unexpected {:?}", other),
    }
    for bad in [" 1", "1 ", "", "-", "+", "1.5", "--1", "٣"] {
        assert!(matches!(mousemouserel::parse(bad, "0"), Err(CommandError::InvalidArgument(0, _))), "{bad}");
    }
}

#[test]
fn mousemoveabs_parse_two_numbers() {
    assert_eq!(mousemoveabs::parse("640", "480").unwrap(), (640, 480));
    assert!(matches!(mousemoveabs::parse("640", "4a"), Err(CommandError::InvalidArgument(1, _))));
}

#[test]
fn command_from_str_each_command() {
    assert!(matches!(Command::from_str("0|1|2"), Ok(Command::MouseMoveRel((1, 2)))));
    assert!(matches!(Command::from_str("1|-3|4"), Ok(Command::MouseMoveAbs((-3, 4)))));
    match Command::from_str("2|hi there") {
        Ok(Command::SetClipboard(s)) => assert_eq!(s, "hi there"),
        _ => panic!("expected SetClipboard"),
    }
    match Command::from_str("2|") {
        Ok(Command::SetClipboard(s)) => assert_eq!(s, ""),
        _ => panic!("expected SetClipboard"),
    }
    assert!(matches!(Command::from_str("3"), Ok(Command::Mouse1Click(()))));
}

#[test]
fn command_from_str_wrong_argument_count() {
    for text in ["2", "2|a|b", "0|1", "0|1|2|3", "1", "3|", "3|x"] {
        assert!(matches!(Command::from_str(text), Err(CommandError::NotEnoughArguments)), "{text}");
    }
}

#[test]
fn command_from_str_unknown_command() {
    for text in ["", "9|1", "02|x", "a", "|0|1|2", " 0|1|2"] {
        assert!(matches!(Command::from_str(text), Err(CommandError::CouldNotFindCommand)), "{text}");
    }
}

#[test]
fn command_from_str_bad_argument() {
    match Command::from_str("0|a|2") {
        Err(CommandError::InvalidArgument(0, s)) => assert_eq!(s, "a"),
        _ => panic!("expected InvalidArgument"),
    }
    match Command::from_str("1|5|") {
        Err(CommandError::InvalidArgument(1, s)) => assert_eq!(s, ""),
        _ => panic!("expected InvalidArgument"),
    }
}

#[test]
fn error_codes() {
    assert_eq!(CommandError::CouldNotFindCommand.to_text(), "0");
    assert_eq!(CommandError::NotEnoughArguments.to_text(), "1");
    assert_eq!(CommandError::InvalidArgument(1, "z".to_string()).to_text(), "2");
    assert_eq!(CommandError::SystemError(5).to_text(), "3");
    assert_eq!(CommandError::BadlyFormattedCommand.to_text(), "4");
}

#[test]
fn error_byte_string() {
    let b = CommandError::SystemError(1400).into_byte_string();
    assert_eq!(&*b, "3");
    let b = CommandError::NotEnoughArguments.into_byte_string();
    assert_eq!(&*b, "1");
}

#[test]
fn error_code_reads_back() {
    assert!(matches!(CommandError::from_code("0"), Ok(CommandError::CouldNotFindCommand)));
    assert!(matches!(CommandError::from_code("1"), Ok(CommandError::NotEnoughArguments)));
    match CommandError::from_code("2") {
        Ok(CommandError::InvalidArgument(0, s)) => assert_eq!(s, ""),
        _ => panic!("expected InvalidArgument"),
    }
    assert!(matches!(CommandError::from_code("3"), Ok(CommandError::SystemError(0))));
    assert!(matches!(CommandError::from_code("4"), Ok(CommandError::BadlyFormattedCommand)));
    for text in ["", "5", "00", "CouldNotFindCommand", " 1"] {
        assert_eq!(CommandError::from_code(text).unwrap_err(), ParseCodeError::VariantNotFound);
    }
}

#[test]
fn error_code_round_trip_all_variants() {
    let errors = vec![
        CommandError::CouldNotFindCommand,
        CommandError::NotEnoughArguments,
        CommandError::InvalidArgument(3, "q".to_string()),
        CommandError::SystemError(-2),
        CommandError::BadlyFormattedCommand,
    ];
    for e in errors {
        let code = e.to_text();
        let back = CommandError::from_code(&code).unwrap();
        assert_eq!(back.to_text(), code);
    }
}

#[test]
fn response_text_joins_data() {
    let r = CommandResponse { id: "7".to_string(), data: vec!["a".to_string(), "b c".to_string()] };
    assert_eq!(r.to_text(), "7|a|b c");
    let r = CommandResponse { id: "7".to_string(), data: vec![] };
    assert_eq!(r.to_text(), "7|");
    let r = CommandResponse { id: "".to_string(), data: vec!["".to_string(), "".to_string()] };
    assert_eq!(r.to_text(), "||");
}

#[test]
fn response_byte_string() {
    let r = CommandResponse { id: "42".to_string(), data: vec!["x".to_string()] };
    let b = r.into_byte_string();
    assert_eq!(&*b, "42|x");
}

#[test]
fn response_splits_back_into_id_and_data() {
    let r = CommandResponse { id: "9".to_string(), data: vec!["one".to_string(), "two".to_string()] };
    let text = r.to_text();
    let pieces: Vec<&str> = text.split('|').collect();
    assert_eq!(pieces, vec!["9", "one", "two"]);
}

#[test]
fn from_str_trait_forwards() {
    assert!(matches!("0|4|5".parse::<Command>(), Ok(Command::MouseMoveRel((4, 5)))));
    assert!(matches!("7".parse::<Command>(), Err(CommandError::CouldNotFindCommand)));
    assert!(matches!("4".parse::<CommandError>(), Ok(CommandError::BadlyFormattedCommand)));
    assert_eq!("9".parse::<CommandError>().unwrap_err(), ParseCodeError::VariantNotFound);
}

#[test]
fn parse_reads_back_displayed_numbers() {
    for (a, b) in [(0, 0), (i32::MIN, i32::MAX), (-1, 10), (123456, -987654), (9, -9)] {
        assert_eq!(mousemouserel::parse(&a.to_string(), &b.to_string()).unwrap(), (a, b));
        assert_eq!(mousemoveabs::parse(&a.to_string(), &b.to_string()).unwrap(), (a, b));
    }
}
