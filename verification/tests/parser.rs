use pinentry::request::{GetinfoRequest, Request};

#[test]
fn parses_each_command() {
    assert_eq!(Request::from_str("OPTION ttyname=/dev/pts/1\n"), Ok(Request::Option));
    assert_eq!(
        Request::from_str("GETINFO pid\n"),
        Ok(Request::Getinfo { data: GetinfoRequest::Pid })
    );
    assert_eq!(Request::from_str("SETKEYINFO n/ABCDEF\n"), Ok(Request::Setkeyinfo));
    assert_eq!(
        Request::from_str("SETDESC Enter PIN\n"),
        Ok(Request::Setdesc { data: String::from("Enter PIN") })
    );
    assert_eq!(
        Request::from_str("SETPROMPT PIN:\n"),
        Ok(Request::Setprompt { data: String::from("PIN:") })
    );
    assert_eq!(Request::from_str("GETPIN\n"), Ok(Request::Getpin));
    assert_eq!(Request::from_str("BYE\n"), Ok(Request::Bye));
}

#[test]
fn parses_each_kind_of_query() {
    assert_eq!(
        Request::from_str("GETINFO flavor"),
        Ok(Request::Getinfo { data: GetinfoRequest::Flavor })
    );
    assert_eq!(
        Request::from_str("GETINFO version"),
        Ok(Request::Getinfo { data: GetinfoRequest::Version })
    );
    assert_eq!(
        Request::from_str("GETINFO ttyinfo"),
        Ok(Request::Getinfo { data: GetinfoRequest::Ttyinfo })
    );
    assert_eq!(
        Request::from_str("GETINFO pid"),
        Ok(Request::Getinfo { data: GetinfoRequest::Pid })
    );
}

#[test]
fn kinds_are_read_by_their_exact_names() {
    assert_eq!(GetinfoRequest::from_str("flavor"), Ok(GetinfoRequest::Flavor));
    assert_eq!(GetinfoRequest::from_str("version"), Ok(GetinfoRequest::Version));
    assert_eq!(GetinfoRequest::from_str("ttyinfo"), Ok(GetinfoRequest::Ttyinfo));
    assert_eq!(GetinfoRequest::from_str("pid"), Ok(GetinfoRequest::Pid));
    assert_eq!(GetinfoRequest::from_str(""), Err(()));
    assert_eq!(GetinfoRequest::from_str("PID"), Err(()));
    assert_eq!(GetinfoRequest::from_str("pid "), Err(()));
    assert_eq!(GetinfoRequest::from_str("s2k_count"), Err(()));
}

#[test]
fn an_empty_line_holds_no_request() {
    assert_eq!(Request::from_str(""), Err(()));
    assert_eq!(Request::from_str("\n"), Err(()));
    assert_eq!(Request::from_str("  \t \r\n"), Err(()));
}

#[test]
fn an_unknown_first_word_holds_no_request() {
    assert_eq!(Request::from_str("HELP\n"), Err(()));
    assert_eq!(Request::from_str("CONFIRM\n"), Err(()));
    assert_eq!(Request::from_str("GETPINS\n"), Err(()));
    assert_eq!(Request::from_str("GET PIN\n"), Err(()));
    assert_eq!(Request::from_str("x GETPIN\n"), Err(()));
}

#[test]
fn commands_are_upper_case_only() {
    assert_eq!(Request::from_str("getpin\n"), Err(()));
    assert_eq!(Request::from_str("Bye\n"), Err(()));
    assert_eq!(Request::from_str("option x\n"), Err(()));
}

#[test]
fn a_query_needs_a_kind_that_exists() {
    assert_eq!(Request::from_str("GETINFO\n"), Err(()));
    assert_eq!(Request::from_str("GETINFO   \n"), Err(()));
    assert_eq!(Request::from_str("GETINFO s2k_count\n"), Err(()));
    assert_eq!(Request::from_str("GETINFO PID\n"), Err(()));
}

#[test]
fn words_that_a_command_does_not_read_are_passed_over() {
    assert_eq!(Request::from_str("OPTION\n"), Ok(Request::Option));
    assert_eq!(Request::from_str("OPTION a b c\n"), Ok(Request::Option));
    assert_eq!(
        Request::from_str("GETINFO pid and more\n"),
        Ok(Request::Getinfo { data: GetinfoRequest::Pid })
    );
    assert_eq!(Request::from_str("SETKEYINFO\n"), Ok(Request::Setkeyinfo));
    assert_eq!(Request::from_str("GETPIN now\n"), Ok(Request::Getpin));
    assert_eq!(Request::from_str("BYE bye\n"), Ok(Request::Bye));
}

#[test]
fn leading_white_space_does_not_hide_the_command() {
    assert_eq!(Request::from_str("  \tGETPIN"), Ok(Request::Getpin));
    assert_eq!(
        Request::from_str("\u{a0}SETDESC\u{3000}x"),
        Ok(Request::Setdesc { data: String::from("x") })
    );
}

#[test]
fn text_is_joined_with_single_spaces() {
    assert_eq!(
        Request::from_str("SETDESC a b c\n"),
        Ok(Request::Setdesc { data: String::from("a b c") })
    );
    assert_eq!(
        Request::from_str("SETDESC   a \t b\u{2003}\u{2003}c  \r\n"),
        Ok(Request::Setdesc { data: String::from("a b c") })
    );
    assert_eq!(
        Request::from_str("SETPROMPT  Pass   phrase: \n"),
        Ok(Request::Setprompt { data: String::from("Pass phrase:") })
    );
}

#[test]
fn text_may_be_empty() {
    assert_eq!(Request::from_str("SETDESC\n"), Ok(Request::Setdesc { data: String::new() }));
    assert_eq!(Request::from_str("SETPROMPT  \n"), Ok(Request::Setprompt { data: String::new() }));
}

#[test]
fn text_is_taken_as_it_stands() {
    assert_eq!(
        Request::from_str("SETDESC D OK%0AERR # \\n BYE GETPIN\n"),
        Ok(Request::Setdesc { data: String::from("D OK%0AERR # \\n BYE GETPIN") })
    );
    assert_eq!(
        Request::from_str("SETPROMPT Geheimzahl für «Schlüssel» 越:\n"),
        Ok(Request::Setprompt { data: String::from("Geheimzahl für «Schlüssel» 越:") })
    );
}
