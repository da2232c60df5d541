//! The line-level dialect of the protocol engine: commands are answered with
//! ready-made lines of text, and `SETKEYINFO` keeps its argument. What the
//! agent reads is, line for line, what the typed engine sends.

use crate::handoff::{Collected, CollectedView};
use crate::request::{
    line_of, parse_request, GetinfoRequest, Host, HostView, ReactionView, RequestView,
    ResponseView, FLAVOR, TTYINFO,
};
use crate::session::{
    deliver_step, opened, receive_step, sent, step, Input, Phase, SessionView,
};
use crate::state::{State, StateView};
use crate::text::{decimal, join, join_words, same_text, split_words, texts, to_decimal, words};
use vstd::prelude::*;

verus! {

/// The acknowledgement, as a line.
pub const OK: &'static str = "OK";

/// What begins a line that carries data.
pub const DATA: &'static str = "D ";

/// The kinds of information that `GETINFO` can ask for.
#[derive(Debug, Clone, Copy, PartialEq, Eq)]
pub enum GetinfoSubCommand {
    Flavor,
    Version,
    Ttyinfo,
    Pid,
}

/// One command of the agent.
#[derive(Debug, Clone, PartialEq, Eq)]
pub enum Command {
    Option,
    Getinfo { data: GetinfoSubCommand },
    Setkeyinfo { data: String },
    Setdesc { data: String },
    Setprompt { data: String },
    Getpin,
    Bye,
}

/// What a line of input leads to.
#[derive(Debug, Clone, PartialEq, Eq)]
pub enum Answer {
    /// Send these lines to the agent.
    Lines(Vec<String>),
    /// Collect a secret from the user, with the state as it now stands.
    Collect,
    /// Send nothing and end the session.
    Stop,
}

/// A session in this dialect: the context that the agent has set, what the
/// program knows about itself, and whether the session still runs.
#[derive(Debug)]
pub struct LineSession {
    state: State,
    host: Host,
    phase: Phase,
}

/// The mathematical value of a [`Command`].
pub ghost enum CommandView {
    Option,
    Getinfo { data: GetinfoSubCommand },
    Setkeyinfo { data: Seq<char> },
    Setdesc { data: Seq<char> },
    Setprompt { data: Seq<char> },
    Getpin,
    Bye,
}

/// The mathematical value of an [`Answer`].
pub ghost enum AnswerView {
    Lines(Seq<Seq<char>>),
    Collect,
    Stop,
}

impl View for Command {
    type V = CommandView;

    open spec fn view(&self) -> CommandView {
        match *self {
            Command::Option => CommandView::Option,
            Command::Getinfo { data } => CommandView::Getinfo { data },
            Command::Setkeyinfo { data } => CommandView::Setkeyinfo { data: data@ },
            Command::Setdesc { data } => CommandView::Setdesc { data: data@ },
            Command::Setprompt { data } => CommandView::Setprompt { data: data@ },
            Command::Getpin => CommandView::Getpin,
            Command::Bye => CommandView::Bye,
        }
    }
}

impl View for Answer {
    type V = AnswerView;

    open spec fn view(&self) -> AnswerView {
        match *self {
            Answer::Lines(lines) => AnswerView::Lines(texts(lines@)),
            Answer::Collect => AnswerView::Collect,
            Answer::Stop => AnswerView::Stop,
        }
    }
}

impl View for LineSession {
    type V = SessionView;

    closed spec fn view(&self) -> SessionView {
        SessionView { state: self.state@, host: self.host@, phase: self.phase }
    }
}

/// The kind that a word names, if it names one.
pub open spec fn parse_subcommand(word: Seq<char>) -> Option<GetinfoSubCommand> {
    if word == "flavor"@ {
        Some(GetinfoSubCommand::Flavor)
    } else if word == "version"@ {
        Some(GetinfoSubCommand::Version)
    } else if word == "ttyinfo"@ {
        Some(GetinfoSubCommand::Ttyinfo)
    } else if word == "pid"@ {
        Some(GetinfoSubCommand::Pid)
    } else {
        None
    }
}

/// The command that a line of input holds, if it holds one. The first word
/// selects the command; `GETINFO` reads the second word as its kind;
/// `SETKEYINFO`, `SETDESC` and `SETPROMPT` take the words that are left,
/// joined by single spaces; words that a command does not read are passed
/// over.
pub open spec fn parse_command(line: Seq<char>) -> Option<CommandView> {
    let w = words(line);
    if w.len() == 0 {
        None
    } else if w[0] == "OPTION"@ {
        Some(CommandView::Option)
    } else if w[0] == "GETINFO"@ {
        if w.len() < 2 {
            None
        } else {
            match parse_subcommand(w[1]) {
                Some(data) => Some(CommandView::Getinfo { data }),
                None => None,
            }
        }
    } else if w[0] == "SETKEYINFO"@ {
        Some(CommandView::Setkeyinfo { data: join(w.skip(1)) })
    } else if w[0] == "SETDESC"@ {
        Some(CommandView::Setdesc { data: join(w.skip(1)) })
    } else if w[0] == "SETPROMPT"@ {
        Some(CommandView::Setprompt { data: join(w.skip(1)) })
    } else if w[0] == "GETPIN"@ {
        Some(CommandView::Getpin)
    } else if w[0] == "BYE"@ {
        Some(CommandView::Bye)
    } else {
        None
    }
}

/// The text that answers a query of the given kind.
pub open spec fn info_text(kind: GetinfoSubCommand, host: HostView) -> Seq<char> {
    match kind {
        GetinfoSubCommand::Flavor => FLAVOR@,
        GetinfoSubCommand::Version => host.version,
        GetinfoSubCommand::Ttyinfo => TTYINFO@,
        GetinfoSubCommand::Pid => decimal(host.pid as nat),
    }
}

/// The state after a command, and what the command leads to. `OPTION` and
/// `SETKEYINFO` are accepted whatever follows them.
pub open spec fn obey(command: CommandView, state: StateView, host: HostView) -> (
    StateView,
    AnswerView,
) {
    match command {
        CommandView::Option => (state, AnswerView::Lines(seq![OK@])),
        CommandView::Getinfo { data } => (
            state,
            AnswerView::Lines(seq![DATA@ + info_text(data, host), OK@]),
        ),
        CommandView::Setkeyinfo { data } => (state, AnswerView::Lines(seq![OK@])),
        CommandView::Setdesc { data } => (
            StateView { description: data, ..state },
            AnswerView::Lines(seq![OK@]),
        ),
        CommandView::Setprompt { data } => (
            StateView { prompt: data, ..state },
            AnswerView::Lines(seq![OK@]),
        ),
        CommandView::Getpin => (state, AnswerView::Collect),
        CommandView::Bye => (state, AnswerView::Lines(seq![OK@])),
    }
}

/// The state after a line of input, and what the line leads to. A line
/// that holds no command ends the session.
pub open spec fn answer_to(line: Seq<char>, state: StateView, host: HostView) -> (
    StateView,
    AnswerView,
) {
    match parse_command(line) {
        Some(command) => obey(command, state, host),
        None => (state, AnswerView::Stop),
    }
}

/// The lines that answer `GETPIN` after a collection: the secret and the
/// acknowledgement where a secret was collected, and no line, with the end
/// of the session, where the user cancelled or the collection failed.
pub open spec fn pin_lines(collected: CollectedView) -> Option<Seq<Seq<char>>> {
    match collected {
        CollectedView::Secret(text) if text.len() > 0 => Some(seq![DATA@ + text, OK@]),
        _ => None,
    }
}

/// The session after a line of input, and what the line leads to. A line
/// that holds no command ends the session without an answer; `BYE` is
/// acknowledged and ends it; a session that has ended answers nothing.
pub open spec fn receive_lines(session: SessionView, line: Seq<char>) -> (SessionView, AnswerView) {
    match session.phase {
        Phase::Terminated => (session, AnswerView::Stop),
        Phase::Running => match parse_command(line) {
            None => (SessionView { phase: Phase::Terminated, ..session }, AnswerView::Stop),
            Some(command) => (
                SessionView {
                    state: obey(command, session.state, session.host).0,
                    phase: if command is Bye {
                        Phase::Terminated
                    } else {
                        Phase::Running
                    },
                    ..session
                },
                obey(command, session.state, session.host).1,
            ),
        },
    }
}

/// The session after a collection, and the answer to the `GETPIN` that
/// asked for it. A collection without a secret ends the session without an
/// answer.
pub open spec fn deliver_lines(session: SessionView, collected: CollectedView) -> (
    SessionView,
    Option<Seq<Seq<char>>>,
) {
    match session.phase {
        Phase::Terminated => (session, None),
        Phase::Running => (
            SessionView {
                phase: if pin_lines(collected) is None {
                    Phase::Terminated
                } else {
                    Phase::Running
                },
                ..session
            },
            pin_lines(collected),
        ),
    }
}

/// The line of each response.
pub open spec fn encoded(responses: Seq<ResponseView>) -> Seq<Seq<char>> {
    responses.map_values(|r: ResponseView| line_of(r))
}

/// The lines that an answer sends at once.
pub open spec fn lines_sent(answer: AnswerView) -> Seq<Seq<char>> {
    match answer {
        AnswerView::Lines(lines) => lines,
        _ => Seq::empty(),
    }
}

/// The session after one input, and the lines that the input draws.
pub open spec fn line_step(session: SessionView, input: Input) -> (SessionView, Seq<Seq<char>>) {
    match input {
        Input::Line(line) => (
            receive_lines(session, line).0,
            lines_sent(receive_lines(session, line).1),
        ),
        Input::Pin(collected) => (
            deliver_lines(session, collected).0,
            match deliver_lines(session, collected).1 {
                Some(lines) => lines,
                None => Seq::empty(),
            },
        ),
    }
}

/// The session after a run of inputs.
pub open spec fn after_lines(session: SessionView, inputs: Seq<Input>) -> SessionView
    decreases inputs.len(),
{
    if inputs.len() == 0 {
        session
    } else {
        line_step(after_lines(session, inputs.drop_last()), inputs.last()).0
    }
}

/// The lines that the last of a run of inputs draws.
pub open spec fn last_lines(session: SessionView, inputs: Seq<Input>) -> Seq<Seq<char>>
    recommends
        inputs.len() > 0,
{
    line_step(after_lines(session, inputs.drop_last()), inputs.last()).1
}

impl GetinfoSubCommand {
    /// Reads the kind that `s` names. Fails on every text that is not
    /// exactly one of the four names.
    pub fn from_str(s: &str) -> (kind: Result<Self, ()>)
        ensures
            match parse_subcommand(s@) {
                Some(k) => kind == Ok::<Self, ()>(k),
                None => kind is Err,
            },
    {
        if same_text(s, "flavor") {
            Ok(Self::Flavor)
        } else if same_text(s, "version") {
            Ok(Self::Version)
        } else if same_text(s, "ttyinfo") {
            Ok(Self::Ttyinfo)
        } else if same_text(s, "pid") {
            Ok(Self::Pid)
        } else {
            Err(())
        }
    }
}

impl Command {
    /// Reads the command that one line of input holds. Fails when the line
    /// has no word, when its first word is not a command, and when
    /// `GETINFO` is not followed by one of its kinds.
    pub fn from_str(s: &str) -> (command: Result<Self, ()>)
        ensures
            match parse_command(s@) {
                Some(c) => command is Ok && command->Ok_0@ == c,
                None => command is Err,
            },
    {
        let split = split_words(s);
        if split.len() == 0 {
            return Err(());
        }
        assert(texts(split@)[0] == split@[0]@);
        let name = split[0].as_str();
        if same_text(name, "OPTION") {
            Ok(Self::Option)
        } else if same_text(name, "GETINFO") {
            if split.len() < 2 {
                return Err(());
            }
            assert(texts(split@)[1] == split@[1]@);
            match GetinfoSubCommand::from_str(split[1].as_str()) {
                Ok(data) => Ok(Self::Getinfo { data }),
                Err(_) => Err(()),
            }
        } else if same_text(name, "SETKEYINFO") {
            Ok(Self::Setkeyinfo { data: join_words(&split, 1) })
        } else if same_text(name, "SETDESC") {
            Ok(Self::Setdesc { data: join_words(&split, 1) })
        } else if same_text(name, "SETPROMPT") {
            Ok(Self::Setprompt { data: join_words(&split, 1) })
        } else if same_text(name, "GETPIN") {
            Ok(Self::Getpin)
        } else if same_text(name, "BYE") {
            Ok(Self::Bye)
        } else {
            Err(())
        }
    }
}

fn acknowledged() -> (lines: Vec<String>)
    ensures
        texts(lines@) == seq![OK@],
{
    let mut lines: Vec<String> = Vec::new();
    lines.push(OK.to_owned());
    assert(texts(lines@) =~= seq![OK@]);
    lines
}

fn told(data: &str) -> (lines: Vec<String>)
    ensures
        texts(lines@) == seq![DATA@ + data@, OK@],
{
    let mut lines: Vec<String> = Vec::new();
    lines.push(DATA.to_owned().concat(data));
    lines.push(OK.to_owned());
    assert(texts(lines@) =~= seq![DATA@ + data@, OK@]);
    lines
}

/// Reads one line of input and carries out the command that it holds.
pub fn handle(s: &str, state: &mut State, host: &Host) -> (answer: Answer)
    ensures
        (final(state)@, answer@) == answer_to(s@, old(state)@, host@),
{
    match Command::from_str(s) {
        Ok(command) => carry_out(command, state, host),
        Err(_) => Answer::Stop,
    }
}

fn carry_out(command: Command, state: &mut State, host: &Host) -> (answer: Answer)
    ensures
        (final(state)@, answer@) == obey(command@, old(state)@, host@),
{
    match command {
        Command::Option => Answer::Lines(acknowledged()),
        Command::Getinfo { data } => match data {
            GetinfoSubCommand::Flavor => Answer::Lines(told(FLAVOR)),
            GetinfoSubCommand::Version => Answer::Lines(told(host.version.as_str())),
            GetinfoSubCommand::Ttyinfo => Answer::Lines(told(TTYINFO)),
            GetinfoSubCommand::Pid => Answer::Lines(told(to_decimal(host.pid).as_str())),
        },
        Command::Setkeyinfo { .. } => Answer::Lines(acknowledged()),
        Command::Setdesc { data } => {
            state.description = data;
            Answer::Lines(acknowledged())
        },
        Command::Setprompt { data } => {
            state.prompt = data;
            Answer::Lines(acknowledged())
        },
        Command::Getpin => Answer::Collect,
        Command::Bye => Answer::Lines(acknowledged()),
    }
}

/// The answer to `GETPIN` after a collection, or nothing where the session
/// is to end.
pub fn getpin(collected: Collected) -> (lines: Option<Vec<String>>)
    ensures
        match pin_lines(collected@) {
            Some(l) => lines is Some && texts(lines->Some_0@) == l,
            None => lines is None,
        },
{
    match collected {
        Collected::Secret(text) => {
            if text.as_str().unicode_len() > 0 {
                Some(told(text.as_str()))
            } else {
                None
            }
        },
        _ => None,
    }
}

impl LineSession {
    /// Opens a session.
    pub fn new(host: Host) -> (session: LineSession)
        ensures
            session@ == opened(host@),
    {
        LineSession { state: State::new(), host, phase: Phase::Running }
    }

    /// What a session sends before it has read anything.
    pub fn greeting() -> (line: String)
        ensures
            line@ == OK@,
    {
        OK.to_owned()
    }

    /// Whether the session still takes input.
    pub fn is_running(&self) -> (running: bool)
        ensures
            running == (self@.phase is Running),
    {
        match self.phase {
            Phase::Running => true,
            Phase::Terminated => false,
        }
    }

    /// The context that the agent has set so far.
    pub fn state(&self) -> (state: &State)
        ensures
            state@ == self@.state,
    {
        &self.state
    }

    /// Takes in one line from the agent.
    pub fn receive(&mut self, line: &str) -> (answer: Answer)
        ensures
            (final(self)@, answer@) == receive_lines(old(self)@, line@),
    {
        match self.phase {
            Phase::Terminated => Answer::Stop,
            Phase::Running => match Command::from_str(line) {
                Err(_) => {
                    self.phase = Phase::Terminated;
                    Answer::Stop
                },
                Ok(command) => {
                    if let Command::Bye = command {
                        self.phase = Phase::Terminated;
                    }
                    carry_out(command, &mut self.state, &self.host)
                },
            },
        }
    }

    /// Takes in the outcome of the collection that `GETPIN` asked for, and
    /// gives the answer to that `GETPIN`, or nothing where the session
    /// ends.
    pub fn deliver(&mut self, collected: Collected) -> (lines: Option<Vec<String>>)
        ensures
            final(self)@ == deliver_lines(old(self)@, collected@).0,
            match deliver_lines(old(self)@, collected@).1 {
                Some(l) => lines is Some && texts(lines->Some_0@) == l,
                None => lines is None,
            },
    {
        match self.phase {
            Phase::Terminated => None,
            Phase::Running => {
                let lines = getpin(collected);
                if lines.is_none() {
                    self.phase = Phase::Terminated;
                }
                lines
            },
        }
    }
}

/// What this dialect sends is what the typed engine sends, line for line:
/// a line of input and the outcome of a collection leave the same session
/// behind in both, and the lines are the typed responses, each written as
/// its line.
pub proof fn lemma_dialect_speaks_as_typed(session: SessionView, input: Input)
    ensures
        line_step(session, input) == (step(session, input).0, encoded(step(session, input).1)),
        input matches Input::Line(line) ==> (receive_lines(session, line).1 is Collect
            <==> receive_step(session, line).1 is Collect),
        input matches Input::Line(line) ==> (receive_lines(session, line).1 is Stop
            <==> receive_step(session, line).1 == ReactionView::Reply(Seq::empty())),
        input matches Input::Pin(collected) ==> (deliver_lines(session, collected).1 is None
            <==> deliver_step(session, collected).1.len() == 0),
{
    lemma_dialects_read_alike(match input {
        Input::Line(line) => line,
        Input::Pin(_) => Seq::empty(),
    });
    match input {
        Input::Line(line) => {
            let reaction = receive_step(session, line).1;
            assert(lines_sent(receive_lines(session, line).1) =~= encoded(sent(reaction)));
        },
        Input::Pin(collected) => {
            let replies = deliver_step(session, collected).1;
            assert(line_step(session, input).1 =~= encoded(replies));
        },
    }
}

/// A session that has ended stays as it is and sends nothing, whatever it
/// is given and however often.
pub proof fn lemma_ended_dialect_stays_silent(session: SessionView, inputs: Seq<Input>)
    requires
        session.phase is Terminated,
    ensures
        after_lines(session, inputs) == session,
        inputs.len() > 0 ==> last_lines(session, inputs).len() == 0,
        inputs.len() > 0 && inputs.last() is Line ==> receive_lines(
            after_lines(session, inputs.drop_last()),
            inputs.last()->Line_0,
        ).1 is Stop,
    decreases inputs.len(),
{
    if inputs.len() > 0 {
        lemma_ended_dialect_stays_silent(session, inputs.drop_last());
    }
}

/// A `GETPIN` that is answered with no line ends the session: after it no
/// input draws a line. So does a line that holds no command, and so does
/// `BYE` once it has been acknowledged.
pub proof fn lemma_silence_after_the_end(
    session: SessionView,
    collected: CollectedView,
    line: Seq<char>,
    inputs: Seq<Input>,
)
    requires
        inputs.len() > 0,
    ensures
        deliver_lines(session, collected).1 is None ==> last_lines(
            deliver_lines(session, collected).0,
            inputs,
        ).len() == 0,
        receive_lines(session, line).1 is Stop ==> last_lines(
            receive_lines(session, line).0,
            inputs,
        ).len() == 0,
        parse_command(line) == Some(CommandView::Bye) ==> last_lines(
            receive_lines(session, line).0,
            inputs,
        ).len() == 0,
{
    if deliver_lines(session, collected).1 is None {
        lemma_ended_dialect_stays_silent(deliver_lines(session, collected).0, inputs);
    }
    if receive_lines(session, line).1 is Stop || parse_command(line) == Some(CommandView::Bye) {
        lemma_ended_dialect_stays_silent(receive_lines(session, line).0, inputs);
    }
}

/// Every query is answered in exactly two lines, `D ` with the text asked
/// for and then `OK`; for the process identifier the text is its decimal
/// numeral, for the version the version of the build.
pub proof fn lemma_queries_answer_in_two_lines(
    kind: GetinfoSubCommand,
    state: StateView,
    host: HostView,
)
    ensures
        obey(CommandView::Getinfo { data: kind }, state, host) == (
            state,
            AnswerView::Lines(seq![DATA@ + info_text(kind, host), OK@]),
        ),
        info_text(GetinfoSubCommand::Pid, host) == decimal(host.pid as nat),
        info_text(GetinfoSubCommand::Version, host) == host.version,
{
}

/// The two dialects read a line alike: one finds a command exactly where
/// the other finds a request, and the two agree in all but the argument of
/// `SETKEYINFO`, which only this dialect keeps.
pub proof fn lemma_dialects_read_alike(line: Seq<char>)
    ensures
        match parse_command(line) {
            None => parse_request(line) is None,
            Some(CommandView::Option) => parse_request(line) == Some(RequestView::Option),
            Some(CommandView::Getinfo { data }) => parse_request(line) matches Some(
                RequestView::Getinfo { data: kind },
            ) && same_kind(data, kind),
            Some(CommandView::Setkeyinfo { data }) => parse_request(line) == Some(
                RequestView::Setkeyinfo,
            ),
            Some(CommandView::Setdesc { data }) => parse_request(line) == Some(
                RequestView::Setdesc { data },
            ),
            Some(CommandView::Setprompt { data }) => parse_request(line) == Some(
                RequestView::Setprompt { data },
            ),
            Some(CommandView::Getpin) => parse_request(line) == Some(RequestView::Getpin),
            Some(CommandView::Bye) => parse_request(line) == Some(RequestView::Bye),
        },
{
}

/// Whether a kind of this dialect and a kind of the typed one are the same
/// kind.
pub open spec fn same_kind(a: GetinfoSubCommand, b: GetinfoRequest) -> bool {
    match a {
        GetinfoSubCommand::Flavor => b is Flavor,
        GetinfoSubCommand::Version => b is Version,
        GetinfoSubCommand::Ttyinfo => b is Ttyinfo,
        GetinfoSubCommand::Pid => b is Pid,
    }
}

} // verus!
