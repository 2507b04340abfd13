use risq::tor::{
    auth_challenge_command, authenticate, check_auth_cookie, handle_code, is_last_line,
    parse_line, parse_status, protocol_info, protocol_info_command, read_lines, TCError,
    TCErrorKind,
};
use std::convert::TryFrom;

fn chars(text: &str) -> Vec<char> {
    text.chars().collect()
}

fn text(chars: &Vec<char>) -> String {
    chars.iter().collect()
}

#[test]
fn status_codes() {
    assert!(matches!(parse_status(&chars("250 OK")), Ok(250)));
    assert!(matches!(parse_status(&chars("515")), Ok(515)));
    assert!(matches!(parse_status(&chars("007-")), Ok(7)));
    assert!(matches!(parse_status(&chars("+25 ")), Ok(25)));
    assert!(matches!(parse_status(&chars("-25 ")), Err(TCError::UnknownResponse)));
    assert!(matches!(parse_status(&chars("25  ")), Err(TCError::UnknownResponse)));
    assert!(matches!(parse_status(&chars("2x0 ")), Err(TCError::UnknownResponse)));
    assert!(matches!(parse_status(&chars(" 25 ")), Err(TCError::UnknownResponse)));
}

#[test]
fn last_lines() {
    assert!(matches!(is_last_line(&chars("250 OK")), Ok(true)));
    assert!(matches!(is_last_line(&chars("250-more")), Ok(false)));
    assert!(matches!(is_last_line(&chars("250+data")), Ok(false)));
    assert!(matches!(is_last_line(&chars("250=what")), Err(TCError::UnknownResponse)));
}

#[test]
fn lines() {
    match parse_line(&chars("250-PROTOCOLINFO 1\r\n")) {
        Ok((status, last, msg)) => {
            assert_eq!(status, 250);
            assert!(!last);
            assert_eq!(text(&msg), "PROTOCOLINFO 1\r\n");
        }
        Err(error) => panic!("unexpected error {:?}", error),
    }
    assert!(matches!(parse_line(&chars("250 ")), Ok((250, true, _))));
    assert!(matches!(parse_line(&chars("250")), Err(TCError::UnknownResponse)));
    assert!(matches!(parse_line(&chars("")), Err(TCError::UnknownResponse)));
    assert!(matches!(parse_line(&chars("abc def")), Err(TCError::UnknownResponse)));
    assert!(matches!(parse_line(&chars("250?def")), Err(TCError::UnknownResponse)));
}

#[test]
fn codes() {
    assert!(matches!(handle_code(250), Ok(())));
    assert!(matches!(handle_code(251), Ok(())));
    let kinds = [
        (451, TCErrorKind::ResourceExhausted),
        (500, TCErrorKind::SyntaxErrorProtocol),
        (510, TCErrorKind::UnrecognizedCmd),
        (511, TCErrorKind::UnimplementedCmd),
        (512, TCErrorKind::SyntaxErrorCmdArg),
        (513, TCErrorKind::UnrecognizedCmdArg),
        (514, TCErrorKind::AuthRequired),
        (515, TCErrorKind::BadAuth),
        (550, TCErrorKind::UnspecifiedTorError),
        (551, TCErrorKind::InternalError),
        (552, TCErrorKind::UnrecognizedEntity),
        (553, TCErrorKind::InvalidConfigValue),
        (554, TCErrorKind::InvalidDescriptor),
        (555, TCErrorKind::UnmanagedEntity),
    ];
    for (code, kind) in kinds.iter() {
        assert_eq!(TCErrorKind::try_from(*code), Ok(*kind));
        match handle_code(*code) {
            Err(TCError::TorError(found)) => assert_eq!(found, *kind),
            other => panic!("unexpected {:?}", other),
        }
    }
    assert_eq!(TCErrorKind::try_from(250), Err(()));
    assert_eq!(TCErrorKind::try_from(556), Err(()));
    assert!(matches!(handle_code(252), Err(TCError::UnknownResponse)));
    assert!(matches!(handle_code(0), Err(TCError::UnknownResponse)));
}

#[test]
fn io_errors_become_errors_of_the_control_port() {
    let error = std::io::Error::new(std::io::ErrorKind::Other, "gone");
    assert!(matches!(TCError::from(error), TCError::IoError(_)));
}

#[test]
fn replies() {
    let lines = vec![chars("250-first \r\n"), chars("250+second\t\r\n"), chars("250 third\r\n"), chars("250 beyond\r\n")];
    let reply = read_lines(&lines).unwrap();
    let reply: Vec<String> = reply.iter().map(text).collect();
    assert_eq!(reply, vec!["first", "second", "third"]);
}

#[test]
fn replies_that_fail() {
    assert!(matches!(read_lines(&vec![]), Err(TCError::UnknownResponse)));
    assert!(matches!(read_lines(&vec![chars("250-first\r\n")]), Err(TCError::UnknownResponse)));
    assert!(matches!(
        read_lines(&vec![chars("250-first\r\n"), chars("515 Bad authentication\r\n")]),
        Err(TCError::TorError(TCErrorKind::BadAuth))
    ));
    assert!(matches!(
        read_lines(&vec![chars("250-first\r\n"), chars("25\r\n")]),
        Err(TCError::UnknownResponse)
    ));
    assert!(matches!(read_lines(&vec![chars("299 what\r\n")]), Err(TCError::UnknownResponse)));
}

#[test]
fn what_the_control_port_says_of_itself() {
    let reply = vec![
        chars("250-PROTOCOLINFO 1\r\n"),
        chars("250-AUTH METHODS=COOKIE,SAFECOOKIE COOKIEFILE=\"/run/tor/control.authcookie\"\r\n"),
        chars("250-VERSION Tor=\"0.4.1.6\"\r\n"),
        chars("250 OK\r\n"),
    ];
    let info = protocol_info(&read_lines(&reply).unwrap());
    assert_eq!(info.cookiefile, "/run/tor/control.authcookie");
    assert_eq!(info.auth_methods, vec!["COOKIE", "SAFECOOKIE"]);
    assert_eq!(info.tor_version, "0.4.1.6");
}

#[test]
fn what_the_control_port_leaves_out() {
    let info = protocol_info(&vec![chars("PROTOCOLINFO 1"), chars("OK")]);
    assert_eq!(info.cookiefile, "");
    assert_eq!(info.auth_methods, vec![""]);
    assert_eq!(info.tor_version, "");
    let info = protocol_info(&vec![]);
    assert_eq!(info.auth_methods, vec![""]);
    let info = protocol_info(&vec![chars("METHODS=A=B METHODS=NULL Tor=\"\"1\"\" COOKIEFILE=x COOKIEFILE=\"y")]);
    assert_eq!(info.cookiefile, "y");
    assert_eq!(info.auth_methods, vec!["NULL"]);
    assert_eq!(info.tor_version, "1");
}

#[test]
fn commands() {
    assert_eq!(protocol_info_command(), "PROTOCOLINFO 1");
    assert_eq!(auth_challenge_command(&vec![0x01, 0xab, 0xf0]), "AUTHCHALLENGE SAFECOOKIE 01abf0");
    assert_eq!(auth_challenge_command(&vec![]), "AUTHCHALLENGE SAFECOOKIE ");
    let command = authenticate();
    assert!(command.starts_with("AUTHCHALLENGE SAFECOOKIE "));
    assert_eq!(command.len(), 25 + 64);
    assert!(command[25..].chars().all(|c| c.is_ascii_hexdigit() && !c.is_ascii_uppercase()));
}

#[test]
fn cookies() {
    assert!(matches!(check_auth_cookie(vec![7; 32]), Ok(cookie) if cookie == vec![7; 32]));
    assert!(matches!(check_auth_cookie(vec![7; 31]), Err(TCError::CannotReadAuthCookie)));
    assert!(matches!(check_auth_cookie(vec![]), Err(TCError::CannotReadAuthCookie)));
}

#[test]
fn refusals_of_the_control_port_are_errors_of_the_node() {
    assert_eq!(
        risq::error::Error::from(TCErrorKind::BadAuth),
        risq::error::Error::ControlPortError(TCErrorKind::BadAuth)
    );
}
