use r_uwp::commands::{Command, CommandError};
use r_uwp::ws::{MyWs, IP};

#[test]
fn ws_ip_is_loopback() {
    assert_eq!(IP, "127.0.0.1");
}

#[test]
fn parse_text_reads_job_and_command() {
    match MyWs::parse_text("5|0|1|2") {
        Ok((id, Command::MouseMoveRel((1, 2)))) => assert_eq!(id, "5"),
        _ => panic!("expected job 5 moving the mouse"),
    }
    match MyWs::parse_text("a|2|copied text") {
        Ok((id, Command::SetClipboard(s))) => {
            assert_eq!(id, "a");
            assert_eq!(s, "copied text");
        }
        _ => panic!("expected SetClipboard"),
    }
}

#[test]
fn parse_text_errors() {
    assert!(matches!(MyWs::parse_text("5|9"), Err(CommandError::CouldNotFindCommand)));
    assert!(matches!(MyWs::parse_text("5|3|x"), Err(CommandError::NotEnoughArguments)));
    assert!(matches!(MyWs::parse_text("ab"), Err(CommandError::CouldNotFindCommand)));
}

#[test]
fn parse_text_two_byte_job_char() {
    // 'é' takes two bytes, so the command starts right after it.
    match MyWs::parse_text("é3") {
        Ok((id, Command::Mouse1Click(()))) => assert_eq!(id, "é3"),
        _ => panic!("expected Mouse1Click"),
    }
}

#[test]
fn reply_with_data() {
    let b = MyWs::reply("5".to_string(), Ok(Some(vec!["x".to_string(), "y".to_string()])));
    assert_eq!(&*b, "5|x|y");
}

#[test]
fn reply_without_data() {
    let b = MyWs::reply("5".to_string(), Ok(None));
    assert_eq!(&*b, "5|");
}

#[test]
fn reply_error_code() {
    let b = MyWs::reply("5".to_string(), Err(CommandError::SystemError(5)));
    assert_eq!(&*b, "3");
}

#[test]
fn reply_echoes_job_of_message() {
    let (id, command) = match MyWs::parse_text("k|3") {
        Ok(x) => x,
        Err(e) => panic!("unexpected {:?}", e),
    };
    assert!(matches!(command, Command::Mouse1Click(())));
    let b = MyWs::reply(id, Ok(Some(vec!["done".to_string(), "".to_string()])));
    let pieces: Vec<&str> = b.split('|').collect();
    assert_eq!(pieces, vec!["k", "done", ""]);
}
