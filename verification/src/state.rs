//! The context that a session keeps between commands.

use vstd::prelude::*;

verus! {

/// What the agent has told the session to show to the user.
#[derive(Debug, Clone, PartialEq, Eq)]
pub struct State {
    pub description: String,
    pub prompt: String,
}

/// The mathematical value of a [`State`].
pub ghost struct StateView {
    pub description: Seq<char>,
    pub prompt: Seq<char>,
}

impl View for State {
    type V = StateView;

    open spec fn view(&self) -> StateView {
        StateView { description: self.description@, prompt: self.prompt@ }
    }
}

impl State {
    /// The state at the start of a session: nothing to show yet.
    pub fn new() -> (state: Self)
        ensures
            state@ == (StateView { description: Seq::empty(), prompt: Seq::empty() }),
    {
        Self { description: String::new(), prompt: String::new() }
    }
}

impl Default for State {
    fn default() -> (state: Self)
        ensures
            state@ == (StateView { description: Seq::empty(), prompt: Seq::empty() }),
    {
        Self::new()
    }
}

} // verus!
