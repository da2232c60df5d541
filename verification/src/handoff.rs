//! The hand-off of one secret from the user to the session: a secret file is
//! made, a collector is launched with the session's context in its
//! environment, the file is read once the collector has gone, and the file
//! is removed before the result is given. The moves are decided here; the
//! caller carries each of them out and reports what came of it.

use crate::request::{answer, replies, Response, ResponseView};
use crate::state::{State, StateView};
use crate::text::texts;
use vstd::prelude::*;

verus! {

/// The program that shows the collector to the user.
pub const TERMINAL: &'static str = "kitty";

/// The flag that names the window class of the terminal.
pub const CLASS_FLAG: &'static str = "--class";

/// The window class that the terminal is given.
pub const CLASS: &'static str = "kitty-pinentry";

/// The name of the secret file inside its fresh directory.
pub const SECRET_FILE: &'static str = "pin";

/// The variable that carries the description to the collector.
pub const DESCRIPTION: &'static str = "DESCRIPTION";

/// The variable that carries the prompt to the collector.
pub const PROMPT: &'static str = "PROMPT";

/// The variable that carries the path of the secret file to the collector.
pub const TMP_FILE: &'static str = "TMP_FILE";

/// The collectors that can be launched.
#[derive(Debug, Clone, Copy, PartialEq, Eq)]
pub enum Client {
    Minimal,
    Terminal,
}

/// Why a collection gave no secret though the user did not cancel it.
#[derive(Debug, Clone, Copy, PartialEq, Eq)]
pub enum CollectorError {
    /// The collector could not be started.
    Launch,
    /// The secret file could not be made, read or removed.
    Io,
}

/// How a collection ended.
#[derive(Debug, Clone, PartialEq, Eq)]
pub enum Collected {
    /// The collector wrote this secret.
    Secret(String),
    /// The collector left the secret file empty: the user cancelled.
    Cancelled,
    /// The collection failed.
    Failed(CollectorError),
}

/// A program to run, with its arguments and the variables to add to its
/// environment.
#[derive(Debug, Clone, PartialEq, Eq)]
pub struct Invocation {
    pub program: String,
    pub arguments: Vec<String>,
    pub environment: Vec<(String, String)>,
}

/// What the caller is to do next.
#[derive(Debug, Clone, PartialEq, Eq)]
pub enum Effect {
    /// Make a fresh directory and, inside it, an empty file of this name.
    Create { file_name: String },
    /// Run the collector and wait until it has gone.
    Launch { invocation: Invocation },
    /// Read the whole file at this path as text.
    Read { path: String },
    /// Remove the file at this path.
    Remove { path: String },
    /// Nothing more: the collection has ended so.
    Finish { collected: Collected },
}

/// What came of the last effect.
#[derive(Debug, Clone, PartialEq, Eq)]
pub enum Event {
    /// The secret file stands empty at this absolute path.
    Created { path: String },
    /// The directory or the file could not be made.
    CreateFailed,
    /// The collector ran and has gone.
    Exited,
    /// The collector could not be started.
    LaunchFailed,
    /// The secret file held this text.
    Contents { text: String },
    /// The secret file could not be read as text.
    Unreadable,
    /// The secret file is gone.
    Removed,
    /// The secret file could not be removed.
    RemoveFailed,
}

/// Where a hand-off stands.
#[derive(Debug, Clone, PartialEq, Eq)]
pub enum Handoff {
    /// The secret file has been asked for.
    Creating { context: State, client: Client },
    /// The secret file exists and the collector has been asked for.
    Launching { path: String },
    /// The secret file exists and its contents have been asked for.
    Reading { path: String },
    /// The removal of the secret file has been asked for; `verdict` is what
    /// the collection comes to if the removal succeeds.
    Removing { verdict: Collected },
    /// The collection has ended.
    Finished,
}

/// The mathematical value of a [`Collected`].
pub ghost enum CollectedView {
    Secret(Seq<char>),
    Cancelled,
    Failed(CollectorError),
}

/// The mathematical value of an [`Invocation`].
pub ghost struct InvocationView {
    pub program: Seq<char>,
    pub arguments: Seq<Seq<char>>,
    pub environment: Seq<(Seq<char>, Seq<char>)>,
}

/// The mathematical value of an [`Effect`].
pub ghost enum EffectView {
    Create { file_name: Seq<char> },
    Launch { invocation: InvocationView },
    Read { path: Seq<char> },
    Remove { path: Seq<char> },
    Finish { collected: CollectedView },
}

/// The mathematical value of an [`Event`].
pub ghost enum EventView {
    Created { path: Seq<char> },
    CreateFailed,
    Exited,
    LaunchFailed,
    Contents { text: Seq<char> },
    Unreadable,
    Removed,
    RemoveFailed,
}

/// The mathematical value of a [`Handoff`].
pub ghost enum HandoffView {
    Creating { context: StateView, client: Client },
    Launching { path: Seq<char> },
    Reading { path: Seq<char> },
    Removing { verdict: CollectedView },
    Finished,
}

impl View for Collected {
    type V = CollectedView;

    open spec fn view(&self) -> CollectedView {
        match *self {
            Collected::Secret(text) => CollectedView::Secret(text@),
            Collected::Cancelled => CollectedView::Cancelled,
            Collected::Failed(error) => CollectedView::Failed(error),
        }
    }
}

/// The view of each pair of `v`.
pub open spec fn bindings(v: Seq<(String, String)>) -> Seq<(Seq<char>, Seq<char>)> {
    v.map_values(|pair: (String, String)| (pair.0@, pair.1@))
}

impl View for Invocation {
    type V = InvocationView;

    open spec fn view(&self) -> InvocationView {
        InvocationView {
            program: self.program@,
            arguments: texts(self.arguments@),
            environment: bindings(self.environment@),
        }
    }
}

impl View for Effect {
    type V = EffectView;

    open spec fn view(&self) -> EffectView {
        match *self {
            Effect::Create { file_name } => EffectView::Create { file_name: file_name@ },
            Effect::Launch { invocation } => EffectView::Launch { invocation: invocation@ },
            Effect::Read { path } => EffectView::Read { path: path@ },
            Effect::Remove { path } => EffectView::Remove { path: path@ },
            Effect::Finish { collected } => EffectView::Finish { collected: collected@ },
        }
    }
}

impl View for Event {
    type V = EventView;

    open spec fn view(&self) -> EventView {
        match *self {
            Event::Created { path } => EventView::Created { path: path@ },
            Event::CreateFailed => EventView::CreateFailed,
            Event::Exited => EventView::Exited,
            Event::LaunchFailed => EventView::LaunchFailed,
            Event::Contents { text } => EventView::Contents { text: text@ },
            Event::Unreadable => EventView::Unreadable,
            Event::Removed => EventView::Removed,
            Event::RemoveFailed => EventView::RemoveFailed,
        }
    }
}

impl View for Handoff {
    type V = HandoffView;

    open spec fn view(&self) -> HandoffView {
        match *self {
            Handoff::Creating { context, client } => HandoffView::Creating {
                context: context@,
                client,
            },
            Handoff::Launching { path } => HandoffView::Launching { path: path@ },
            Handoff::Reading { path } => HandoffView::Reading { path: path@ },
            Handoff::Removing { verdict } => HandoffView::Removing { verdict: verdict@ },
            Handoff::Finished => HandoffView::Finished,
        }
    }
}

/// The name under which a collector is started.
pub open spec fn client_name(client: Client) -> Seq<char> {
    match client {
        Client::Minimal => "pinentry-minimal-client"@,
        Client::Terminal => "pinentry-terminal-client"@,
    }
}

/// How the collector is started: in a terminal of its own, with the
/// description, the prompt and the path of the secret file in its
/// environment and none of them among its arguments.
pub open spec fn invocation(context: StateView, client: Client, path: Seq<char>) -> InvocationView {
    InvocationView {
        program: TERMINAL@,
        arguments: seq![CLASS_FLAG@, CLASS@, client_name(client)],
        environment: seq![
            (DESCRIPTION@, context.description),
            (PROMPT@, context.prompt),
            (TMP_FILE@, path),
        ],
    }
}

/// What the contents of the secret file come to: a secret, or, where the
/// file is empty, a cancellation.
pub open spec fn verdict_of(text: Seq<char>) -> CollectedView {
    if text.len() == 0 {
        CollectedView::Cancelled
    } else {
        CollectedView::Secret(text)
    }
}

/// What a collection comes to when the secret file could not be removed.
pub open spec fn unremoved(verdict: CollectedView) -> CollectedView {
    match verdict {
        CollectedView::Failed(error) => CollectedView::Failed(error),
        _ => CollectedView::Failed(CollectorError::Io),
    }
}

/// The first move of a hand-off.
pub open spec fn first(context: StateView, client: Client) -> (HandoffView, EffectView) {
    (HandoffView::Creating { context, client }, EffectView::Create { file_name: SECRET_FILE@ })
}

/// The move that follows an event. An event that does not answer the
/// effect last asked for counts as the failure of that effect.
pub open spec fn next(handoff: HandoffView, event: EventView) -> (HandoffView, EffectView) {
    match handoff {
        HandoffView::Creating { context, client } => match event {
            EventView::Created { path } => (
                HandoffView::Launching { path },
                EffectView::Launch { invocation: invocation(context, client, path) },
            ),
            _ => (
                HandoffView::Finished,
                EffectView::Finish { collected: CollectedView::Failed(CollectorError::Io) },
            ),
        },
        HandoffView::Launching { path } => match event {
            EventView::Exited => (HandoffView::Reading { path }, EffectView::Read { path }),
            EventView::LaunchFailed => (
                HandoffView::Removing { verdict: CollectedView::Failed(CollectorError::Launch) },
                EffectView::Remove { path },
            ),
            _ => (
                HandoffView::Removing { verdict: CollectedView::Failed(CollectorError::Io) },
                EffectView::Remove { path },
            ),
        },
        HandoffView::Reading { path } => match event {
            EventView::Contents { text } => (
                HandoffView::Removing { verdict: verdict_of(text) },
                EffectView::Remove { path },
            ),
            _ => (
                HandoffView::Removing { verdict: CollectedView::Failed(CollectorError::Io) },
                EffectView::Remove { path },
            ),
        },
        HandoffView::Removing { verdict } => match event {
            EventView::Removed => (HandoffView::Finished, EffectView::Finish { collected: verdict }),
            _ => (HandoffView::Finished, EffectView::Finish { collected: unremoved(verdict) }),
        },
        HandoffView::Finished => (
            HandoffView::Finished,
            EffectView::Finish { collected: CollectedView::Failed(CollectorError::Io) },
        ),
    }
}

/// The lines that answer `GETPIN` after a collection: the secret and the
/// acknowledgement where a secret was collected, and nothing at all where
/// the user cancelled or the collection failed.
pub open spec fn pin_replies(collected: CollectedView) -> Seq<ResponseView> {
    match collected {
        CollectedView::Secret(text) if text.len() > 0 => seq![
            ResponseView::D { data: text },
            ResponseView::Okay,
        ],
        _ => Seq::empty(),
    }
}

impl Client {
    /// The name under which the collector is started.
    pub fn name(self) -> (name: String)
        ensures
            name@ == client_name(self),
    {
        match self {
            Client::Minimal => "pinentry-minimal-client".to_owned(),
            Client::Terminal => "pinentry-terminal-client".to_owned(),
        }
    }
}

impl Collected {
    /// The lines that answer `GETPIN` after this collection.
    pub fn responses(self) -> (responses: Vec<Response>)
        ensures
            replies(responses@) == pin_replies(self@),
    {
        match self {
            Collected::Secret(text) => {
                if text.as_str().unicode_len() > 0 {
                    answer(text)
                } else {
                    let none: Vec<Response> = Vec::new();
                    assert(replies(none@) =~= Seq::empty());
                    none
                }
            },
            _ => {
                let none: Vec<Response> = Vec::new();
                assert(replies(none@) =~= Seq::empty());
                none
            },
        }
    }
}

impl Invocation {
    /// How `client` is started for a session in the state `context`, with
    /// the secret file at `path`.
    pub fn collector(context: State, client: Client, path: String) -> (made: Invocation)
        ensures
            made@ == invocation(context@, client, path@),
    {
        let mut arguments: Vec<String> = Vec::new();
        arguments.push(CLASS_FLAG.to_owned());
        arguments.push(CLASS.to_owned());
        arguments.push(client.name());
        let mut environment: Vec<(String, String)> = Vec::new();
        environment.push((DESCRIPTION.to_owned(), context.description));
        environment.push((PROMPT.to_owned(), context.prompt));
        environment.push((TMP_FILE.to_owned(), path));
        let made = Invocation { program: TERMINAL.to_owned(), arguments, environment };
        assert(made@.arguments =~= invocation(context@, client, path@).arguments);
        assert(made@.environment =~= invocation(context@, client, path@).environment);
        made
    }
}

impl Handoff {
    /// Begins the hand-off of a secret for a session in the state `context`:
    /// the first thing asked for is the secret file.
    pub fn begin(context: &State, client: Client) -> (start: (Handoff, Effect))
        ensures
            (start.0@, start.1@) == first(context@, client),
    {
        let context = State {
            description: context.description.clone(),
            prompt: context.prompt.clone(),
        };
        (Handoff::Creating { context, client }, Effect::Create { file_name: SECRET_FILE.to_owned() })
    }

    /// Takes in what came of the effect last asked for and says what to do
    /// next.
    pub fn advance(self, event: Event) -> (step: (Handoff, Effect))
        ensures
            (step.0@, step.1@) == next(self@, event@),
    {
        match self {
            Handoff::Creating { context, client } => match event {
                Event::Created { path } => {
                    let invocation = Invocation::collector(context, client, path.clone());
                    (Handoff::Launching { path }, Effect::Launch { invocation })
                },
                _ => (
                    Handoff::Finished,
                    Effect::Finish { collected: Collected::Failed(CollectorError::Io) },
                ),
            },
            Handoff::Launching { path } => match event {
                Event::Exited => (Handoff::Reading { path: path.clone() }, Effect::Read { path }),
                Event::LaunchFailed => (
                    Handoff::Removing { verdict: Collected::Failed(CollectorError::Launch) },
                    Effect::Remove { path },
                ),
                _ => (
                    Handoff::Removing { verdict: Collected::Failed(CollectorError::Io) },
                    Effect::Remove { path },
                ),
            },
            Handoff::Reading { path } => match event {
                Event::Contents { text } => {
                    let verdict = if text.as_str().unicode_len() == 0 {
                        Collected::Cancelled
                    } else {
                        Collected::Secret(text)
                    };
                    (Handoff::Removing { verdict }, Effect::Remove { path })
                },
                _ => (
                    Handoff::Removing { verdict: Collected::Failed(CollectorError::Io) },
                    Effect::Remove { path },
                ),
            },
            Handoff::Removing { verdict } => match event {
                Event::Removed => (Handoff::Finished, Effect::Finish { collected: verdict }),
                _ => {
                    let collected = match verdict {
                        Collected::Failed(error) => Collected::Failed(error),
                        _ => Collected::Failed(CollectorError::Io),
                    };
                    (Handoff::Finished, Effect::Finish { collected })
                },
            },
            Handoff::Finished => (
                Handoff::Finished,
                Effect::Finish { collected: Collected::Failed(CollectorError::Io) },
            ),
        }
    }
}

/// The path of the secret file, while the file exists and its removal has
/// not been asked for.
pub open spec fn live_file(handoff: HandoffView) -> Option<Seq<char>> {
    match handoff {
        HandoffView::Launching { path } => Some(path),
        HandoffView::Reading { path } => Some(path),
        _ => None,
    }
}

/// Whether a hand-off holds no verdict that calls an empty text a secret.
pub open spec fn is_sound(handoff: HandoffView) -> bool {
    handoff matches HandoffView::Removing { verdict: CollectedView::Secret(text) } ==> text.len()
        > 0
}

/// The effects that a run of events draws from a hand-off, in order.
pub open spec fn effects(handoff: HandoffView, events: Seq<EventView>) -> Seq<EffectView>
    decreases events.len(),
{
    if events.len() == 0 {
        Seq::empty()
    } else {
        seq![next(handoff, events[0]).1] + effects(next(handoff, events[0]).0, events.drop_first())
    }
}

/// Every event draws exactly one effect.
pub proof fn lemma_one_effect_per_event(handoff: HandoffView, events: Seq<EventView>)
    ensures
        effects(handoff, events).len() == events.len(),
    decreases events.len(),
{
    if events.len() > 0 {
        lemma_one_effect_per_event(next(handoff, events[0]).0, events.drop_first());
    }
}

/// While the secret file exists, no run of events ends the collection
/// before the removal of that very file has been asked for.
pub proof fn lemma_removal_precedes_finish(handoff: HandoffView, events: Seq<EventView>, k: int)
    requires
        live_file(handoff) is Some,
        0 <= k < events.len(),
        effects(handoff, events)[k] is Finish,
    ensures
        exists|j: int|
            0 <= j < k && #[trigger] effects(handoff, events)[j] == (EffectView::Remove {
                path: live_file(handoff)->0,
            }),
    decreases events.len(),
{
    let all = effects(handoff, events);
    let (after, effect) = next(handoff, events[0]);
    let rest = effects(after, events.drop_first());
    lemma_one_effect_per_event(after, events.drop_first());
    assert(all == seq![effect] + rest);
    if effect is Remove {
        assert(k > 0);
        assert(all[0] == (EffectView::Remove { path: live_file(handoff)->0 }));
    } else {
        assert(live_file(after) == live_file(handoff));
        assert(all[k] == rest[k - 1]);
        lemma_removal_precedes_finish(after, events.drop_first(), k - 1);
        let j = choose|j: int|
            0 <= j < k - 1 && #[trigger] rest[j] == (EffectView::Remove {
                path: live_file(after)->0,
            });
        assert(all[j + 1] == rest[j]);
    }
}

/// A hand-off that has made its secret file does not end, whatever comes
/// of its effects, before it has asked for the removal of that file; one
/// that could not make the file ends at once, with a failure.
pub proof fn lemma_secret_file_is_removed(
    context: StateView,
    client: Client,
    events: Seq<EventView>,
    k: int,
)
    requires
        0 <= k < events.len(),
        effects(first(context, client).0, events)[k] is Finish,
    ensures
        events[0] matches EventView::Created { path } ==> exists|j: int|
            0 < j < k && #[trigger] effects(first(context, client).0, events)[j] == (
            EffectView::Remove { path }),
        !(events[0] is Created) ==> effects(first(context, client).0, events)[0] == (
        EffectView::Finish { collected: CollectedView::Failed(CollectorError::Io) }),
{
    let start = first(context, client).0;
    let all = effects(start, events);
    let (after, effect) = next(start, events[0]);
    let rest = effects(after, events.drop_first());
    lemma_one_effect_per_event(after, events.drop_first());
    assert(all == seq![effect] + rest);
    if events[0] is Created {
        assert(k > 0);
        assert(all[k] == rest[k - 1]);
        lemma_removal_precedes_finish(after, events.drop_first(), k - 1);
        let j = choose|j: int|
            0 <= j < k - 1 && #[trigger] rest[j] == (EffectView::Remove {
                path: live_file(after)->0,
            });
        assert(all[j + 1] == rest[j]);
    }
}

/// Where nothing fails, the text that the collector left in the secret
/// file comes back unchanged: as the secret where there is any, as a
/// cancellation where the file is empty.
pub proof fn lemma_collected_text_is_kept(
    context: StateView,
    client: Client,
    path: Seq<char>,
    text: Seq<char>,
)
    ensures
        effects(
            first(context, client).0,
            seq![
                EventView::Created { path },
                EventView::Exited,
                EventView::Contents { text },
                EventView::Removed,
            ],
        ) == seq![
            EffectView::Launch { invocation: invocation(context, client, path) },
            EffectView::Read { path },
            EffectView::Remove { path },
            EffectView::Finish { collected: verdict_of(text) },
        ],
        text.len() > 0 ==> verdict_of(text) == CollectedView::Secret(text) && pin_replies(
            verdict_of(text),
        ) == seq![ResponseView::D { data: text }, ResponseView::Okay],
        text.len() == 0 ==> verdict_of(text) == CollectedView::Cancelled && pin_replies(
            verdict_of(text),
        ) == Seq::<ResponseView>::empty(),
{
    let events = seq![
        EventView::Created { path },
        EventView::Exited,
        EventView::Contents { text },
        EventView::Removed,
    ];
    let h0 = first(context, client).0;
    let h1 = next(h0, events[0]).0;
    let h2 = next(h1, events[1]).0;
    let h3 = next(h2, events[2]).0;
    let h4 = next(h3, events[3]).0;
    let e1 = events.drop_first();
    let e2 = e1.drop_first();
    let e3 = e2.drop_first();
    let e4 = e3.drop_first();
    assert(effects(h4, e4) =~= Seq::<EffectView>::empty());
    assert(effects(h3, e3) =~= seq![EffectView::Finish { collected: verdict_of(text) }]);
    assert(effects(h2, e2) =~= seq![
        EffectView::Remove { path },
        EffectView::Finish { collected: verdict_of(text) },
    ]);
    assert(effects(h1, e1) =~= seq![
        EffectView::Read { path },
        EffectView::Remove { path },
        EffectView::Finish { collected: verdict_of(text) },
    ]);
    assert(effects(h0, events) =~= seq![
        EffectView::Launch { invocation: invocation(context, client, path) },
        EffectView::Read { path },
        EffectView::Remove { path },
        EffectView::Finish { collected: verdict_of(text) },
    ]);
}

/// No event leads a hand-off to call an empty text a secret, and a
/// hand-off never ends with one.
pub proof fn lemma_no_empty_secret(handoff: HandoffView, event: EventView)
    requires
        is_sound(handoff),
    ensures
        is_sound(next(handoff, event).0),
        next(handoff, event).1 matches EffectView::Finish {
            collected: CollectedView::Secret(text),
        } ==> text.len() > 0,
{
}

/// A collection is answered with two lines, the secret and the
/// acknowledgement, where it gave a secret that is not empty, and with no
/// line otherwise: a cancellation and a failure look alike.
pub proof fn lemma_only_a_secret_is_answered(collected: CollectedView)
    ensures
        (collected matches CollectedView::Secret(text) && text.len() > 0) ==> pin_replies(collected)
            == seq![ResponseView::D { data: collected->Secret_0 }, ResponseView::Okay],
        !(collected matches CollectedView::Secret(text) && text.len() > 0) ==> pin_replies(
            collected,
        ).len() == 0,
{
}

} // verus!
