//! The typed protocol engine: requests as the agent sends them, responses as
//! the agent reads them, and what each request does to a session's state.

use crate::state::{State, StateView};
use crate::text::{
    decimal, is_space, is_word, join, join_words, lemma_no_words_iff_blank, lemma_words_of_word,
    lemma_words_split, same_text, split_words, texts, to_decimal, words, words_from,
};
use vstd::prelude::*;

verus! {

/// What the flavor query is answered with.
pub const FLAVOR: &'static str = "rust";

/// What the terminal query is answered with.
pub const TTYINFO: &'static str = "- - - - 1000/1000 0";

/// The kinds of information that `GETINFO` can ask for.
#[derive(Debug, Clone, Copy, PartialEq, Eq)]
pub enum GetinfoRequest {
    Flavor,
    Version,
    Ttyinfo,
    Pid,
}

/// One command of the agent.
#[derive(Debug, Clone, PartialEq, Eq)]
pub enum Request {
    Option,
    Getinfo { data: GetinfoRequest },
    Setkeyinfo,
    Setdesc { data: String },
    Setprompt { data: String },
    Getpin,
    Bye,
}

/// One line of the answer to a command.
#[derive(Debug, Clone, PartialEq, Eq)]
pub enum Response {
    Okay,
    D { data: String },
}

/// What the running program knows about itself.
#[derive(Debug, Clone, PartialEq, Eq)]
pub struct Host {
    /// The version of the build.
    pub version: String,
    /// The identifier of the process.
    pub pid: u32,
}

/// What a request asks the session to do next.
#[derive(Debug, Clone, PartialEq, Eq)]
pub enum Reaction {
    /// Send these lines to the agent.
    Reply(Vec<Response>),
    /// Collect a secret from the user, with the state as it now stands.
    Collect,
}

/// The mathematical value of a [`Request`].
pub ghost enum RequestView {
    Option,
    Getinfo { data: GetinfoRequest },
    Setkeyinfo,
    Setdesc { data: Seq<char> },
    Setprompt { data: Seq<char> },
    Getpin,
    Bye,
}

/// The mathematical value of a [`Response`].
pub ghost enum ResponseView {
    Okay,
    D { data: Seq<char> },
}

/// The mathematical value of a [`Host`].
pub ghost struct HostView {
    pub version: Seq<char>,
    pub pid: u32,
}

/// The mathematical value of a [`Reaction`].
pub ghost enum ReactionView {
    Reply(Seq<ResponseView>),
    Collect,
}

impl View for Request {
    type V = RequestView;

    open spec fn view(&self) -> RequestView {
        match *self {
            Request::Option => RequestView::Option,
            Request::Getinfo { data } => RequestView::Getinfo { data },
            Request::Setkeyinfo => RequestView::Setkeyinfo,
            Request::Setdesc { data } => RequestView::Setdesc { data: data@ },
            Request::Setprompt { data } => RequestView::Setprompt { data: data@ },
            Request::Getpin => RequestView::Getpin,
            Request::Bye => RequestView::Bye,
        }
    }
}

impl View for Response {
    type V = ResponseView;

    open spec fn view(&self) -> ResponseView {
        match *self {
            Response::Okay => ResponseView::Okay,
            Response::D { data } => ResponseView::D { data: data@ },
        }
    }
}

impl View for Host {
    type V = HostView;

    open spec fn view(&self) -> HostView {
        HostView { version: self.version@, pid: self.pid }
    }
}

impl View for Reaction {
    type V = ReactionView;

    open spec fn view(&self) -> ReactionView {
        match *self {
            Reaction::Reply(responses) => ReactionView::Reply(replies(responses@)),
            Reaction::Collect => ReactionView::Collect,
        }
    }
}

/// The view of each response of `v`.
pub open spec fn replies(v: Seq<Response>) -> Seq<ResponseView> {
    v.map_values(|r: Response| r@)
}

/// The kind that a word names, if it names one.
pub open spec fn parse_kind(word: Seq<char>) -> Option<GetinfoRequest> {
    if word == "flavor"@ {
        Some(GetinfoRequest::Flavor)
    } else if word == "version"@ {
        Some(GetinfoRequest::Version)
    } else if word == "ttyinfo"@ {
        Some(GetinfoRequest::Ttyinfo)
    } else if word == "pid"@ {
        Some(GetinfoRequest::Pid)
    } else {
        None
    }
}

/// The request that a line of input holds, if it holds one. The first word
/// selects the command; `GETINFO` reads the second word as its kind;
/// `SETDESC` and `SETPROMPT` take the words that are left, joined by single
/// spaces; words that a command does not read are passed over.
pub open spec fn parse_request(line: Seq<char>) -> Option<RequestView> {
    let w = words(line);
    if w.len() == 0 {
        None
    } else if w[0] == "OPTION"@ {
        Some(RequestView::Option)
    } else if w[0] == "GETINFO"@ {
        if w.len() < 2 {
            None
        } else {
            match parse_kind(w[1]) {
                Some(data) => Some(RequestView::Getinfo { data }),
                None => None,
            }
        }
    } else if w[0] == "SETKEYINFO"@ {
        Some(RequestView::Setkeyinfo)
    } else if w[0] == "SETDESC"@ {
        Some(RequestView::Setdesc { data: join(w.skip(1)) })
    } else if w[0] == "SETPROMPT"@ {
        Some(RequestView::Setprompt { data: join(w.skip(1)) })
    } else if w[0] == "GETPIN"@ {
        Some(RequestView::Getpin)
    } else if w[0] == "BYE"@ {
        Some(RequestView::Bye)
    } else {
        None
    }
}

/// The line that carries a response to the agent, without its line end.
pub open spec fn line_of(r: ResponseView) -> Seq<char> {
    match r {
        ResponseView::Okay => "OK"@,
        ResponseView::D { data } => "D "@ + data,
    }
}

/// The text that answers a query of the given kind.
pub open spec fn info(kind: GetinfoRequest, host: HostView) -> Seq<char> {
    match kind {
        GetinfoRequest::Flavor => FLAVOR@,
        GetinfoRequest::Version => host.version,
        GetinfoRequest::Ttyinfo => TTYINFO@,
        GetinfoRequest::Pid => decimal(host.pid as nat),
    }
}

/// The state after a request, and what the request asks for.
pub open spec fn react(request: RequestView, state: StateView, host: HostView) -> (
    StateView,
    ReactionView,
) {
    match request {
        RequestView::Option => (state, ReactionView::Reply(seq![ResponseView::Okay])),
        RequestView::Getinfo { data } => (
            state,
            ReactionView::Reply(seq![ResponseView::D { data: info(data, host) }, ResponseView::Okay]),
        ),
        RequestView::Setkeyinfo => (state, ReactionView::Reply(seq![ResponseView::Okay])),
        RequestView::Setdesc { data } => (
            StateView { description: data, ..state },
            ReactionView::Reply(seq![ResponseView::Okay]),
        ),
        RequestView::Setprompt { data } => (
            StateView { prompt: data, ..state },
            ReactionView::Reply(seq![ResponseView::Okay]),
        ),
        RequestView::Getpin => (state, ReactionView::Collect),
        RequestView::Bye => (state, ReactionView::Reply(seq![ResponseView::Okay])),
    }
}

impl GetinfoRequest {
    /// Reads the kind that `s` names. Fails on every text that is not
    /// exactly one of the four names.
    pub fn from_str(s: &str) -> (kind: Result<Self, ()>)
        ensures
            match parse_kind(s@) {
                Some(k) => kind == Ok::<Self, ()>(k),
                None => kind is Err,
            },
    {
        if same_text(s, "flavor") {
            Ok(Self::Flavor)
        } else if same_text(s, "version") {
            Ok(Self::Version)
        } else if same_text(s, "ttyinfo") {
            Ok(Self::Ttyinfo)
        } else if same_text(s, "pid") {
            Ok(Self::Pid)
        } else {
            Err(())
        }
    }
}

impl Request {
    /// Reads the request that one line of input holds. Fails when the line
    /// has no word, when its first word is not a command, and when `GETINFO`
    /// is not followed by one of its kinds.
    pub fn from_str(s: &str) -> (request: Result<Self, ()>)
        ensures
            match parse_request(s@) {
                Some(r) => request is Ok && request->Ok_0@ == r,
                None => request is Err,
            },
    {
        let split = split_words(s);
        if split.len() == 0 {
            return Err(());
        }
        assert(texts(split@)[0] == split@[0]@);
        let command = split[0].as_str();
        if same_text(command, "OPTION") {
            Ok(Self::Option)
        } else if same_text(command, "GETINFO") {
            if split.len() < 2 {
                return Err(());
            }
            assert(texts(split@)[1] == split@[1]@);
            match GetinfoRequest::from_str(split[1].as_str()) {
                Ok(data) => Ok(Self::Getinfo { data }),
                Err(_) => Err(()),
            }
        } else if same_text(command, "SETKEYINFO") {
            Ok(Self::Setkeyinfo)
        } else if same_text(command, "SETDESC") {
            Ok(Self::Setdesc { data: join_words(&split, 1) })
        } else if same_text(command, "SETPROMPT") {
            Ok(Self::Setprompt { data: join_words(&split, 1) })
        } else if same_text(command, "GETPIN") {
            Ok(Self::Getpin)
        } else if same_text(command, "BYE") {
            Ok(Self::Bye)
        } else {
            Err(())
        }
    }

    /// Carries out the request on `state`: `SETDESC` and `SETPROMPT` store
    /// their text, `GETPIN` asks for a secret to be collected, and every
    /// other request only answers.
    pub fn handle(&self, state: &mut State, host: &Host) -> (reaction: Reaction)
        ensures
            (final(state)@, reaction@) == react(self@, old(state)@, host@),
    {
        match self {
            Self::Option => Reaction::Reply(acknowledgement()),
            Self::Getinfo { data } => {
                let text = match data {
                    GetinfoRequest::Flavor => FLAVOR.to_owned(),
                    GetinfoRequest::Version => host.version.clone(),
                    GetinfoRequest::Ttyinfo => TTYINFO.to_owned(),
                    GetinfoRequest::Pid => to_decimal(host.pid),
                };
                Reaction::Reply(answer(text))
            },
            Self::Setkeyinfo => Reaction::Reply(acknowledgement()),
            Self::Setdesc { data } => {
                state.description = data.clone();
                Reaction::Reply(acknowledgement())
            },
            Self::Setprompt { data } => {
                state.prompt = data.clone();
                Reaction::Reply(acknowledgement())
            },
            Self::Getpin => Reaction::Collect,
            Self::Bye => Reaction::Reply(acknowledgement()),
        }
    }
}

impl Response {
    /// The line that carries the response to the agent, without its line
    /// end.
    pub fn to_string(&self) -> (line: String)
        ensures
            line@ == line_of(self@),
    {
        match self {
            Self::Okay => "OK".to_owned(),
            Self::D { data } => "D ".to_owned().concat(data.as_str()),
        }
    }
}

/// The answer that only acknowledges.
pub fn acknowledgement() -> (responses: Vec<Response>)
    ensures
        replies(responses@) == seq![ResponseView::Okay],
{
    let mut responses: Vec<Response> = Vec::new();
    responses.push(Response::Okay);
    assert(replies(responses@) =~= seq![ResponseView::Okay]);
    responses
}

/// The answer that hands `data` over and then acknowledges.
pub fn answer(data: String) -> (responses: Vec<Response>)
    ensures
        replies(responses@) == seq![ResponseView::D { data: data@ }, ResponseView::Okay],
{
    let mut responses: Vec<Response> = Vec::new();
    responses.push(Response::D { data });
    responses.push(Response::Okay);
    assert(replies(responses@) =~= seq![ResponseView::D { data: data@ }, ResponseView::Okay]);
    responses
}

/// Whether `word` is one of the seven commands.
pub open spec fn is_command(word: Seq<char>) -> bool {
    ||| word == "OPTION"@
    ||| word == "GETINFO"@
    ||| word == "SETKEYINFO"@
    ||| word == "SETDESC"@
    ||| word == "SETPROMPT"@
    ||| word == "GETPIN"@
    ||| word == "BYE"@
}

proof fn lemma_commands_differ()
    ensures
        "OPTION"@ != "GETINFO"@,
        "OPTION"@ != "SETKEYINFO"@,
        "OPTION"@ != "SETDESC"@,
        "OPTION"@ != "SETPROMPT"@,
        "OPTION"@ != "GETPIN"@,
        "OPTION"@ != "BYE"@,
        "GETINFO"@ != "SETKEYINFO"@,
        "GETINFO"@ != "SETDESC"@,
        "GETINFO"@ != "SETPROMPT"@,
        "GETINFO"@ != "GETPIN"@,
        "GETINFO"@ != "BYE"@,
        "SETKEYINFO"@ != "SETDESC"@,
        "SETKEYINFO"@ != "SETPROMPT"@,
        "SETKEYINFO"@ != "GETPIN"@,
        "SETKEYINFO"@ != "BYE"@,
        "SETDESC"@ != "SETPROMPT"@,
        "SETDESC"@ != "GETPIN"@,
        "SETDESC"@ != "BYE"@,
        "SETPROMPT"@ != "GETPIN"@,
        "SETPROMPT"@ != "BYE"@,
        "GETPIN"@ != "BYE"@,
{
    reveal_strlit("OPTION");
    reveal_strlit("GETINFO");
    reveal_strlit("SETKEYINFO");
    reveal_strlit("SETDESC");
    reveal_strlit("SETPROMPT");
    reveal_strlit("GETPIN");
    reveal_strlit("BYE");
    assert("OPTION"@.len() == 6 && "GETINFO"@.len() == 7 && "SETKEYINFO"@.len() == 10);
    assert("SETDESC"@.len() == 7 && "SETPROMPT"@.len() == 9 && "GETPIN"@.len() == 6);
    assert("BYE"@.len() == 3);
    assert("OPTION"@[0] != "GETPIN"@[0]);
    assert("GETINFO"@[0] != "SETDESC"@[0]);
}

/// A line is read by its first word: each of the seven commands selects its
/// own request, and a line that begins with any other word holds none.
pub proof fn lemma_first_word_selects(line: Seq<char>)
    requires
        words(line).len() > 0,
    ensures
        ({
            let w = words(line);
            let found = parse_request(line);
            &&& w[0] == "OPTION"@ ==> found == Some(RequestView::Option)
            &&& w[0] == "GETINFO"@ ==> found == if w.len() >= 2 && parse_kind(w[1]) is Some {
                Some(RequestView::Getinfo { data: parse_kind(w[1])->0 })
            } else {
                None
            }
            &&& w[0] == "SETKEYINFO"@ ==> found == Some(RequestView::Setkeyinfo)
            &&& w[0] == "SETDESC"@ ==> found == Some(RequestView::Setdesc { data: join(w.skip(1)) })
            &&& w[0] == "SETPROMPT"@ ==> found == Some(
                RequestView::Setprompt { data: join(w.skip(1)) },
            )
            &&& w[0] == "GETPIN"@ ==> found == Some(RequestView::Getpin)
            &&& w[0] == "BYE"@ ==> found == Some(RequestView::Bye)
            &&& !is_command(w[0]) ==> found is None
        }),
{
    lemma_commands_differ();
}

/// Each of the four names selects its own kind, and no other word selects
/// one.
pub proof fn lemma_kind_names()
    ensures
        parse_kind("flavor"@) == Some(GetinfoRequest::Flavor),
        parse_kind("version"@) == Some(GetinfoRequest::Version),
        parse_kind("ttyinfo"@) == Some(GetinfoRequest::Ttyinfo),
        parse_kind("pid"@) == Some(GetinfoRequest::Pid),
        forall|word: Seq<char>|
            word != "flavor"@ && word != "version"@ && word != "ttyinfo"@ && word != "pid"@
                ==> #[trigger] parse_kind(word) is None,
{
    reveal_strlit("flavor");
    reveal_strlit("version");
    reveal_strlit("ttyinfo");
    reveal_strlit("pid");
    assert("flavor"@.len() == 6 && "version"@.len() == 7 && "ttyinfo"@.len() == 7);
    assert("pid"@.len() == 3);
    assert("version"@[0] != "ttyinfo"@[0]);
}

/// A line that holds nothing but white space holds no request.
pub proof fn lemma_blank_line_fails(line: Seq<char>)
    requires
        forall|k: int| 0 <= k < line.len() ==> is_space(#[trigger] line[k]),
    ensures
        parse_request(line) is None,
{
    lemma_no_words_iff_blank(line);
}

/// Every query is answered in exactly two lines: the text asked for, and
/// then the acknowledgement. The state stays as it was.
pub proof fn lemma_getinfo_answers_in_two_lines(
    kind: GetinfoRequest,
    state: StateView,
    host: HostView,
)
    ensures
        react(RequestView::Getinfo { data: kind }, state, host).0 == state,
        react(RequestView::Getinfo { data: kind }, state, host).1 matches ReactionView::Reply(r)
            && r.len() == 2 && r[0] == (ResponseView::D { data: info(kind, host) }) && r[1]
            == ResponseView::Okay && line_of(r[0]) == "D "@ + info(kind, host) && line_of(r[1])
            == "OK"@,
{
}

/// Whatever spacing a line has between its words, `SETDESC` and `SETPROMPT`
/// store the words after the command with single spaces between them.
pub proof fn lemma_text_spacing_collapses(text: Seq<char>, state: StateView, host: HostView)
    ensures
        parse_request("SETDESC"@ + seq![' '] + text) == Some(
            RequestView::Setdesc { data: join(words(text)) },
        ),
        parse_request("SETPROMPT"@ + seq![' '] + text) == Some(
            RequestView::Setprompt { data: join(words(text)) },
        ),
        react(RequestView::Setdesc { data: join(words(text)) }, state, host).0.description == join(
            words(text),
        ),
        react(RequestView::Setprompt { data: join(words(text)) }, state, host).0.prompt == join(
            words(text),
        ),
{
    lemma_commands_differ();
    assert(is_word("SETDESC"@)) by {
        reveal_strlit("SETDESC");
        let c = "SETDESC"@;
        assert forall|k: int| 0 <= k < c.len() implies !is_space(#[trigger] c[k]) by {
            assert(k == 0 || k == 1 || k == 2 || k == 3 || k == 4 || k == 5 || k == 6);
        }
    }
    assert(is_word("SETPROMPT"@)) by {
        reveal_strlit("SETPROMPT");
        let c = "SETPROMPT"@;
        assert forall|k: int| 0 <= k < c.len() implies !is_space(#[trigger] c[k]) by {
            assert(k == 0 || k == 1 || k == 2 || k == 3 || k == 4 || k == 5 || k == 6 || k == 7
                || k == 8);
        }
    }
    lemma_words_after_command("SETDESC"@, text);
    lemma_words_after_command("SETPROMPT"@, text);
    assert((seq!["SETDESC"@] + words(text)).skip(1) =~= words(text));
    assert((seq!["SETPROMPT"@] + words(text)).skip(1) =~= words(text));
}

proof fn lemma_words_after_command(command: Seq<char>, text: Seq<char>)
    requires
        is_word(command),
    ensures
        words(command + seq![' '] + text) == seq![command] + words(text),
{
    let line = command + seq![' '] + text;
    let n = command.len() as int;
    let rest = line.skip(n);
    assert(line.take(n) =~= command);
    assert(rest =~= seq![' '] + text);
    assert(rest.take(1) =~= seq![' ']);
    assert(rest.skip(1) =~= text);
    assert(is_space(line[n]));
    lemma_words_split(line, n);
    lemma_words_split(rest, 1);
    lemma_words_of_word(command);
    assert(words(seq![' ']) =~= Seq::<Seq<char>>::empty()) by {
        reveal_with_fuel(words_from, 2);
    }
    assert(Seq::<Seq<char>>::empty() + words(text) =~= words(text));
}

} // verus!
