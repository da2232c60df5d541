//! One session with the agent: it runs until a line cannot be read as a
//! request, a collection gives no secret, or the agent says goodbye, and
//! after that it stays silent.

use crate::handoff::{
    first, invocation, next, pin_replies, verdict_of, Client, Collected, CollectedView, EffectView,
    EventView, DESCRIPTION, PROMPT, TMP_FILE,
};
use crate::request::{
    lemma_first_word_selects, lemma_text_spacing_collapses, line_of, parse_request, react,
    replies, Host, HostView, Reaction, ReactionView, Request, Response, ResponseView,
};
use crate::state::{State, StateView};
use crate::text::{is_space, is_word, join, lemma_words_of_word, words};
use vstd::prelude::*;

verus! {

/// Whether a session still takes input.
#[derive(Debug, Clone, Copy, PartialEq, Eq)]
pub enum Phase {
    Running,
    Terminated,
}

/// A session: the context that the agent has set, what the program knows
/// about itself, and whether the session still runs.
#[derive(Debug)]
pub struct Session {
    state: State,
    host: Host,
    phase: Phase,
}

/// The mathematical value of a [`Session`].
pub ghost struct SessionView {
    pub state: StateView,
    pub host: HostView,
    pub phase: Phase,
}

/// Something that a session takes in: a line from the agent, or the
/// outcome of a collection that the session has asked for.
pub ghost enum Input {
    Line(Seq<char>),
    Pin(CollectedView),
}

impl View for Session {
    type V = SessionView;

    closed spec fn view(&self) -> SessionView {
        SessionView { state: self.state@, host: self.host@, phase: self.phase }
    }
}

/// A session at its start: running, with nothing to show yet.
pub open spec fn opened(host: HostView) -> SessionView {
    SessionView {
        state: StateView { description: Seq::empty(), prompt: Seq::empty() },
        host,
        phase: Phase::Running,
    }
}

/// The session after a line of input, and what the line asks for. A line
/// that holds no request ends the session without an answer; `BYE` is
/// acknowledged and ends it; a session that has ended answers nothing.
pub open spec fn receive_step(session: SessionView, line: Seq<char>) -> (
    SessionView,
    ReactionView,
) {
    match session.phase {
        Phase::Terminated => (session, ReactionView::Reply(Seq::empty())),
        Phase::Running => match parse_request(line) {
            None => (
                SessionView { phase: Phase::Terminated, ..session },
                ReactionView::Reply(Seq::empty()),
            ),
            Some(request) => (
                SessionView {
                    state: react(request, session.state, session.host).0,
                    phase: if request is Bye {
                        Phase::Terminated
                    } else {
                        Phase::Running
                    },
                    ..session
                },
                react(request, session.state, session.host).1,
            ),
        },
    }
}

/// The session after a collection, and the answer to the `GETPIN` that
/// asked for it. A collection without a secret ends the session without an
/// answer.
pub open spec fn deliver_step(session: SessionView, collected: CollectedView) -> (
    SessionView,
    Seq<ResponseView>,
) {
    match session.phase {
        Phase::Terminated => (session, Seq::empty()),
        Phase::Running => (
            SessionView {
                phase: if pin_replies(collected).len() == 0 {
                    Phase::Terminated
                } else {
                    Phase::Running
                },
                ..session
            },
            pin_replies(collected),
        ),
    }
}

/// The responses that a reaction sends at once.
pub open spec fn sent(reaction: ReactionView) -> Seq<ResponseView> {
    match reaction {
        ReactionView::Reply(responses) => responses,
        ReactionView::Collect => Seq::empty(),
    }
}

/// The session after one input, and the responses that the input draws.
pub open spec fn step(session: SessionView, input: Input) -> (SessionView, Seq<ResponseView>) {
    match input {
        Input::Line(line) => (
            receive_step(session, line).0,
            sent(receive_step(session, line).1),
        ),
        Input::Pin(collected) => deliver_step(session, collected),
    }
}

/// The session after a run of inputs.
pub open spec fn after(session: SessionView, inputs: Seq<Input>) -> SessionView
    decreases inputs.len(),
{
    if inputs.len() == 0 {
        session
    } else {
        step(after(session, inputs.drop_last()), inputs.last()).0
    }
}

/// The responses that the last of a run of inputs draws.
pub open spec fn last_sent(session: SessionView, inputs: Seq<Input>) -> Seq<ResponseView>
    recommends
        inputs.len() > 0,
{
    step(after(session, inputs.drop_last()), inputs.last()).1
}

impl Session {
    /// Opens a session.
    pub fn new(host: Host) -> (session: Session)
        ensures
            session@ == opened(host@),
    {
        Session { state: State::new(), host, phase: Phase::Running }
    }

    /// What a session sends before it has read anything.
    pub fn greeting() -> (response: Response)
        ensures
            response@ == ResponseView::Okay,
    {
        Response::Okay
    }

    /// Whether the session still takes input.
    pub fn is_running(&self) -> (running: bool)
        ensures
            running == (self@.phase is Running),
    {
        match self.phase {
            Phase::Running => true,
            Phase::Terminated => false,
        }
    }

    /// The context that the agent has set so far.
    pub fn state(&self) -> (state: &State)
        ensures
            state@ == self@.state,
    {
        &self.state
    }

    /// Takes in one line from the agent.
    pub fn receive(&mut self, line: &str) -> (reaction: Reaction)
        ensures
            (final(self)@, reaction@) == receive_step(old(self)@, line@),
    {
        match self.phase {
            Phase::Terminated => silence(),
            Phase::Running => match Request::from_str(line) {
                Err(_) => {
                    self.phase = Phase::Terminated;
                    silence()
                },
                Ok(request) => {
                    let reaction = request.handle(&mut self.state, &self.host);
                    if let Request::Bye = request {
                        self.phase = Phase::Terminated;
                    }
                    reaction
                },
            },
        }
    }

    /// Takes in the outcome of the collection that `GETPIN` asked for, and
    /// gives the answer to that `GETPIN`.
    pub fn deliver(&mut self, collected: Collected) -> (responses: Vec<Response>)
        ensures
            (final(self)@, replies(responses@)) == deliver_step(old(self)@, collected@),
    {
        match self.phase {
            Phase::Terminated => {
                let none: Vec<Response> = Vec::new();
                assert(replies(none@) =~= Seq::empty());
                none
            },
            Phase::Running => {
                let responses = collected.responses();
                assert(replies(responses@).len() == responses@.len());
                if responses.len() == 0 {
                    self.phase = Phase::Terminated;
                }
                responses
            },
        }
    }
}

fn silence() -> (reaction: Reaction)
    ensures
        reaction@ == ReactionView::Reply(Seq::empty()),
{
    let none: Vec<Response> = Vec::new();
    assert(replies(none@) =~= Seq::empty());
    Reaction::Reply(none)
}

/// A session that has ended stays as it is and answers nothing, whatever
/// it is given and however often.
pub proof fn lemma_terminated_stays_silent(session: SessionView, inputs: Seq<Input>)
    requires
        session.phase is Terminated,
    ensures
        after(session, inputs) == session,
        inputs.len() > 0 ==> last_sent(session, inputs).len() == 0,
    decreases inputs.len(),
{
    if inputs.len() > 0 {
        lemma_terminated_stays_silent(session, inputs.drop_last());
    }
}

/// A `GETPIN` that is answered with no line ends the session: after it no
/// input draws a response.
pub proof fn lemma_silence_after_fruitless_getpin(
    session: SessionView,
    collected: CollectedView,
    inputs: Seq<Input>,
)
    requires
        deliver_step(session, collected).1.len() == 0,
    ensures
        deliver_step(session, collected).0.phase is Terminated,
        after(deliver_step(session, collected).0, inputs) == deliver_step(session, collected).0,
        inputs.len() > 0 ==> last_sent(deliver_step(session, collected).0, inputs).len() == 0,
{
    lemma_terminated_stays_silent(deliver_step(session, collected).0, inputs);
}

/// What the collector wrote is what the agent reads: a running session
/// answers a text that is not empty with that text, as it stands, behind
/// `D ` and then with `OK`, and it keeps running. An empty text draws no
/// line and ends the session.
pub proof fn lemma_secret_reaches_agent(session: SessionView, text: Seq<char>)
    requires
        session.phase is Running,
    ensures
        text.len() > 0 ==> deliver_step(session, verdict_of(text)) == (
            session,
            seq![ResponseView::D { data: text }, ResponseView::Okay],
        ),
        line_of(ResponseView::D { data: text }) == "D "@ + text,
        line_of(ResponseView::Okay) == "OK"@,
        text.len() == 0 ==> deliver_step(session, verdict_of(text)) == (
            SessionView { phase: Phase::Terminated, ..session },
            Seq::<ResponseView>::empty(),
        ),
{
}

/// A line that is answered with no line ends the session too.
pub proof fn lemma_silence_after_unread_line(
    session: SessionView,
    line: Seq<char>,
    inputs: Seq<Input>,
)
    requires
        receive_step(session, line).1 == ReactionView::Reply(Seq::empty()),
    ensures
        receive_step(session, line).0.phase is Terminated,
        after(receive_step(session, line).0, inputs) == receive_step(session, line).0,
        inputs.len() > 0 ==> last_sent(receive_step(session, line).0, inputs).len() == 0,
{
    if session.phase is Running && parse_request(line) is Some {
        let reaction = react(parse_request(line)->0, session.state, session.host).1;
        assert(reaction matches ReactionView::Reply(r) ==> r.len() > 0);
    }
    lemma_terminated_stays_silent(receive_step(session, line).0, inputs);
}

/// A running session keeps running after every request but `BYE`, and it
/// acknowledges every request but `GETPIN` in the last line of its answer.
/// Only `SETDESC` and `SETPROMPT` change what it holds.
pub proof fn lemma_requests_keep_the_session(session: SessionView, line: Seq<char>)
    requires
        session.phase is Running,
        parse_request(line) is Some,
    ensures
        ({
            let request = parse_request(line)->0;
            let (then, reaction) = receive_step(session, line);
            &&& then.host == session.host
            &&& then.phase is Running <==> !(request is Bye)
            &&& !(request is Setdesc || request is Setprompt) ==> then.state == session.state
            &&& request is Getpin <==> reaction is Collect
            &&& reaction matches ReactionView::Reply(r) ==> r.len() > 0 && r.last()
                == ResponseView::Okay
            &&& !(request is Getinfo || request is Getpin) ==> reaction == ReactionView::Reply(
                seq![ResponseView::Okay],
            )
        }),
{
}

/// What `SETDESC` and `SETPROMPT` have set is what a later `GETPIN` hands
/// to the collector: the words of each text, with single spaces between
/// them, under the names `DESCRIPTION` and `PROMPT`.
pub proof fn lemma_context_reaches_collector(
    session: SessionView,
    description: Seq<char>,
    prompt: Seq<char>,
    client: Client,
    path: Seq<char>,
)
    requires
        session.phase is Running,
    ensures
        ({
            let inputs = seq![
                Input::Line("SETDESC"@ + seq![' '] + description),
                Input::Line("SETPROMPT"@ + seq![' '] + prompt),
            ];
            let then = after(session, inputs);
            let (asked, reaction) = receive_step(then, "GETPIN"@);
            let launch = next(first(asked.state, client).0, EventView::Created { path }).1;
            &&& reaction is Collect
            &&& asked.phase is Running
            &&& asked.state == (StateView {
                description: join(words(description)),
                prompt: join(words(prompt)),
            })
            &&& launch matches EffectView::Launch { invocation: made }
            &&& made == invocation(asked.state, client, path)
            &&& made.environment == seq![
                (DESCRIPTION@, join(words(description))),
                (PROMPT@, join(words(prompt))),
                (TMP_FILE@, path),
            ]
        }),
{
    let first_line = "SETDESC"@ + seq![' '] + description;
    let second_line = "SETPROMPT"@ + seq![' '] + prompt;
    let inputs = seq![Input::Line(first_line), Input::Line(second_line)];
    lemma_text_spacing_collapses(description, session.state, session.host);
    lemma_text_spacing_collapses(prompt, session.state, session.host);
    let one = inputs.drop_last();
    assert(one.drop_last() =~= Seq::<Input>::empty());
    assert(after(session, one.drop_last()) == session);
    assert(one.last() == Input::Line(first_line));
    assert(after(session, one) == step(session, Input::Line(first_line)).0);
    assert(inputs.last() == Input::Line(second_line));
    assert(is_word("GETPIN"@)) by {
        reveal_strlit("GETPIN");
        let c = "GETPIN"@;
        assert forall|k: int| 0 <= k < c.len() implies !is_space(#[trigger] c[k]) by {
            assert(k == 0 || k == 1 || k == 2 || k == 3 || k == 4 || k == 5);
        }
    }
    lemma_words_of_word("GETPIN"@);
    lemma_first_word_selects("GETPIN"@);
}

} // verus!
