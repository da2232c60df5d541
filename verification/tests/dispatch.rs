use pinentry::request::{
    acknowledgement, answer, GetinfoRequest, Host, Reaction, Request, Response, FLAVOR, TTYINFO,
};
use pinentry::state::State;

fn host() -> Host {
    Host { version: String::from("0.3.1"), pid: 4711 }
}

fn context(description: &str, prompt: &str) -> State {
    State { description: String::from(description), prompt: String::from(prompt) }
}

fn data(text: &str) -> Response {
    Response::D { data: String::from(text) }
}

#[test]
fn a_state_starts_empty() {
    assert_eq!(State::new(), context("", ""));
    assert_eq!(State::default(), State::new());
}

#[test]
fn responses_are_encoded_as_lines() {
    assert_eq!(Response::Okay.to_string(), "OK");
    assert_eq!(data("1234").to_string(), "D 1234");
    assert_eq!(data("").to_string(), "D ");
    assert_eq!(data("a b  c").to_string(), "D a b  c");
    assert_eq!(data("OK").to_string(), "D OK");
}

#[test]
fn the_two_answers() {
    assert_eq!(acknowledgement(), vec![Response::Okay]);
    assert_eq!(answer(String::from("x")), vec![data("x"), Response::Okay]);
}

#[test]
fn option_and_setkeyinfo_only_acknowledge() {
    let mut state = context("d", "p");
    assert_eq!(Request::Option.handle(&mut state, &host()), Reaction::Reply(vec![Response::Okay]));
    assert_eq!(
        Request::Setkeyinfo.handle(&mut state, &host()),
        Reaction::Reply(vec![Response::Okay])
    );
    assert_eq!(state, context("d", "p"));
}

#[test]
fn getinfo_flavor() {
    let mut state = State::new();
    let reaction = Request::Getinfo { data: GetinfoRequest::Flavor }.handle(&mut state, &host());
    assert_eq!(reaction, Reaction::Reply(vec![data("rust"), Response::Okay]));
    assert_eq!(FLAVOR, "rust");
}

#[test]
fn getinfo_version() {
    let mut state = State::new();
    let reaction = Request::Getinfo { data: GetinfoRequest::Version }.handle(&mut state, &host());
    assert_eq!(reaction, Reaction::Reply(vec![data("0.3.1"), Response::Okay]));
}

#[test]
fn getinfo_ttyinfo() {
    let mut state = State::new();
    let reaction = Request::Getinfo { data: GetinfoRequest::Ttyinfo }.handle(&mut state, &host());
    assert_eq!(reaction, Reaction::Reply(vec![data("- - - - 1000/1000 0"), Response::Okay]));
    assert_eq!(TTYINFO, "- - - - 1000/1000 0");
}

#[test]
fn getinfo_pid() {
    let mut state = State::new();
    let reaction = Request::Getinfo { data: GetinfoRequest::Pid }.handle(&mut state, &host());
    assert_eq!(reaction, Reaction::Reply(vec![data("4711"), Response::Okay]));
    let first = Host { version: String::new(), pid: 0 };
    let reaction = Request::Getinfo { data: GetinfoRequest::Pid }.handle(&mut state, &first);
    assert_eq!(reaction, Reaction::Reply(vec![data("0"), Response::Okay]));
    let last = Host { version: String::new(), pid: u32::MAX };
    let reaction = Request::Getinfo { data: GetinfoRequest::Pid }.handle(&mut state, &last);
    assert_eq!(reaction, Reaction::Reply(vec![data("4294967295"), Response::Okay]));
}

#[test]
fn every_query_gives_two_lines_and_the_second_is_ok() {
    let kinds = [
        GetinfoRequest::Flavor,
        GetinfoRequest::Version,
        GetinfoRequest::Ttyinfo,
        GetinfoRequest::Pid,
    ];
    for kind in kinds {
        let mut state = context("d", "p");
        match (Request::Getinfo { data: kind }).handle(&mut state, &host()) {
            Reaction::Reply(responses) => {
                let lines: Vec<String> = responses.iter().map(|r| r.to_string()).collect();
                assert_eq!(lines.len(), 2);
                assert!(lines[0].starts_with("D "));
                assert_eq!(lines[1], "OK");
            }
            Reaction::Collect => panic!("a query collects nothing"),
        }
        assert_eq!(state, context("d", "p"));
    }
}

#[test]
fn setdesc_overwrites_the_description() {
    let mut state = context("old", "p");
    let request = Request::Setdesc { data: String::from("new text") };
    assert_eq!(request.handle(&mut state, &host()), Reaction::Reply(vec![Response::Okay]));
    assert_eq!(state, context("new text", "p"));
    let request = Request::Setdesc { data: String::new() };
    assert_eq!(request.handle(&mut state, &host()), Reaction::Reply(vec![Response::Okay]));
    assert_eq!(state, context("", "p"));
}

#[test]
fn setprompt_overwrites_the_prompt() {
    let mut state = context("d", "old");
    let request = Request::Setprompt { data: String::from("PIN:") };
    assert_eq!(request.handle(&mut state, &host()), Reaction::Reply(vec![Response::Okay]));
    assert_eq!(state, context("d", "PIN:"));
}

#[test]
fn reserved_characters_are_stored_as_they_are() {
    let mut state = State::new();
    let request = Request::Setdesc { data: String::from("D x%0AOK\nERR") };
    request.handle(&mut state, &host());
    assert_eq!(state.description, "D x%0AOK\nERR");
}

#[test]
fn getpin_asks_for_a_collection() {
    let mut state = context("d", "p");
    assert_eq!(Request::Getpin.handle(&mut state, &host()), Reaction::Collect);
    assert_eq!(state, context("d", "p"));
}

#[test]
fn bye_is_acknowledged() {
    let mut state = context("d", "p");
    assert_eq!(Request::Bye.handle(&mut state, &host()), Reaction::Reply(vec![Response::Okay]));
    assert_eq!(state, context("d", "p"));
}
