//! The collector's side of a hand-off: the text that the user is typing,
//! what each key does to it, and what the screen shows of it.

use crate::text::{chars_of, push_char, texts};
use vstd::prelude::*;
use vstd::utf8::encode_utf8;

verus! {

/// What separates the lines of a description.
pub const LINE_BREAK: &'static str = "%0A";

/// A key of the keyboard, as far as the collector tells keys apart.
#[derive(Debug, Clone, Copy, PartialEq, Eq)]
pub enum Key {
    Char(char),
    Backspace,
    Enter,
    Esc,
    Other,
}

/// What happened to a key.
#[derive(Debug, Clone, Copy, PartialEq, Eq)]
pub enum Stroke {
    Press,
    Repeat,
    Release,
}

/// Something that the terminal reports.
#[derive(Debug, Clone, Copy, PartialEq, Eq)]
pub enum Signal {
    Key { stroke: Stroke, key: Key },
    Other,
}

/// Where the entry of a secret stands.
#[derive(Debug, Clone, PartialEq, Eq)]
pub enum Progress {
    /// The user is still typing.
    Pending,
    /// The user has accepted this text.
    Accepted(String),
    /// The user has given up.
    Cancelled,
}

/// The entry of a secret: what the user is asked, and what the user has
/// typed so far.
#[derive(Debug, Clone, PartialEq, Eq)]
pub struct Entry {
    pub description: String,
    pub prompt: String,
    pub input: String,
}

/// The mathematical value of a [`Progress`].
pub ghost enum ProgressView {
    Pending,
    Accepted(Seq<char>),
    Cancelled,
}

/// The mathematical value of an [`Entry`].
pub ghost struct EntryView {
    pub description: Seq<char>,
    pub prompt: Seq<char>,
    pub input: Seq<char>,
}

impl View for Progress {
    type V = ProgressView;

    open spec fn view(&self) -> ProgressView {
        match *self {
            Progress::Pending => ProgressView::Pending,
            Progress::Accepted(text) => ProgressView::Accepted(text@),
            Progress::Cancelled => ProgressView::Cancelled,
        }
    }
}

impl View for Entry {
    type V = EntryView;

    open spec fn view(&self) -> EntryView {
        EntryView { description: self.description@, prompt: self.prompt@, input: self.input@ }
    }
}

/// The number of bytes that a text takes in UTF-8.
pub open spec fn byte_len(s: Seq<char>) -> nat {
    encode_utf8(s).len()
}

/// Whether every character of `s` takes one byte in UTF-8.
pub open spec fn is_plain(s: Seq<char>) -> bool {
    forall|k: int| 0 <= k < s.len() ==> (#[trigger] s[k]) as u32 <= 0x7f
}

/// The input after a backspace. As many characters stay as the input has
/// bytes but one: the last character goes where every character takes one
/// byte, and none goes otherwise.
pub open spec fn after_delete(input: Seq<char>) -> Seq<char> {
    if input.len() == 0 {
        input
    } else if byte_len(input) - 1 < input.len() {
        input.take(byte_len(input) - 1)
    } else {
        input
    }
}

/// The entry after a signal, and where the entry then stands. Only the
/// press of a key counts: a character is put behind the input, backspace
/// takes from it, enter accepts it and escape gives up.
pub open spec fn react_to(entry: EntryView, signal: Signal) -> (EntryView, ProgressView) {
    match signal {
        Signal::Key { stroke: Stroke::Press, key } => match key {
            Key::Char(c) => (EntryView { input: entry.input.push(c), ..entry }, ProgressView::Pending),
            Key::Backspace => (
                EntryView { input: after_delete(entry.input), ..entry },
                ProgressView::Pending,
            ),
            Key::Enter => (entry, ProgressView::Accepted(entry.input)),
            Key::Esc => (entry, ProgressView::Cancelled),
            Key::Other => (entry, ProgressView::Pending),
        },
        _ => (entry, ProgressView::Pending),
    }
}

/// Whether the line break stands at position `i` of `s`.
pub open spec fn breaks_at(s: Seq<char>, i: int) -> bool {
    0 <= i && i + 3 <= s.len() && s[i] == '%' && s[i + 1] == '0' && s[i + 2] == 'A'
}

/// The first position at or after `i` where the line break stands, or the
/// length of `s` where it stands nowhere from `i` on.
pub open spec fn next_break(s: Seq<char>, i: int) -> int
    decreases s.len() - i,
{
    if i < 0 || i >= s.len() {
        s.len() as int
    } else if breaks_at(s, i) {
        i
    } else {
        next_break(s, i + 1)
    }
}

/// The lines of `s` from position `i` on: what stands between one line
/// break and the next. There is always at least one line.
pub open spec fn lines_from(s: Seq<char>, i: int) -> Seq<Seq<char>>
    decreases s.len() - i,
{
    let j = next_break(s, i);
    if 0 <= i <= j < s.len() && breaks_at(s, j) {
        seq![s.subrange(i, j)] + lines_from(s, j + 3)
    } else {
        seq![s.subrange(i, s.len() as int)]
    }
}

/// The lines of a description.
pub open spec fn lines(s: Seq<char>) -> Seq<Seq<char>> {
    lines_from(s, 0)
}

/// What stands in the place of the input on the screen: one star for each
/// byte of the input.
pub open spec fn masked(input: Seq<char>) -> Seq<char> {
    Seq::new(byte_len(input), |k: int| '*')
}

/// What stands above the input on the screen: the prompt between two
/// spaces.
pub open spec fn titled(prompt: Seq<char>) -> Seq<char> {
    seq![' '] + prompt + seq![' ']
}

/// Where the cursor stands when the box of the input begins at column `x`
/// and row `y`: inside the frame of the box, behind the stars. The number
/// of stars counts modulo 65536; there is no such place where the column
/// or the row would pass 65535.
pub open spec fn cursor_at(input: Seq<char>, x: u16, y: u16) -> Option<(u16, u16)> {
    let column = x + byte_len(input) % 0x10000 + 1;
    let row = y + 1;
    if column <= 0xffff && row <= 0xffff {
        Some((column as u16, row as u16))
    } else {
        None
    }
}

/// A run without a line break ends where the next line break stands.
proof fn lemma_next_break_of_run(s: Seq<char>, a: int, b: int)
    requires
        0 <= a <= b <= s.len(),
        forall|k: int| a <= k < b ==> !breaks_at(s, k),
        b == s.len() || breaks_at(s, b),
    ensures
        next_break(s, a) == b,
    decreases b - a,
{
    if a < b {
        lemma_next_break_of_run(s, a + 1, b);
    }
}

/// A text takes at least as many bytes as it has characters, and exactly
/// as many where every character takes one byte.
pub proof fn lemma_byte_len(s: Seq<char>)
    ensures
        byte_len(s) >= s.len(),
        byte_len(s) == s.len() <==> is_plain(s),
    decreases s.len(),
{
    if s.len() > 0 {
        let rest = s.drop_first();
        lemma_byte_len(rest);
        if is_plain(s) {
            assert forall|k: int| 0 <= k < rest.len() implies (#[trigger] rest[k]) as u32
                <= 0x7f by {
                assert(rest[k] == s[k + 1]);
            }
        }
        if is_plain(rest) && s[0] as u32 <= 0x7f {
            assert forall|k: int| 0 <= k < s.len() implies (#[trigger] s[k]) as u32 <= 0x7f by {
                if k > 0 {
                    assert(s[k] == rest[k - 1]);
                }
            }
        }
    }
}

/// Backspace takes the last character from an input of one-byte
/// characters, and leaves any other input as it is.
pub proof fn lemma_backspace(input: Seq<char>)
    ensures
        is_plain(input) && input.len() > 0 ==> after_delete(input) == input.drop_last(),
        !is_plain(input) || input.len() == 0 ==> after_delete(input) == input,
{
    lemma_byte_len(input);
    if is_plain(input) && input.len() > 0 {
        assert(input.take(input.len() - 1) =~= input.drop_last());
    }
}

/// The entry after the keys of `text` have been pressed one after the
/// other.
pub open spec fn typed(entry: EntryView, text: Seq<char>) -> EntryView
    decreases text.len(),
{
    if text.len() == 0 {
        entry
    } else {
        react_to(
            typed(entry, text.drop_last()),
            Signal::Key { stroke: Stroke::Press, key: Key::Char(text.last()) },
        ).0
    }
}

/// What the user types is what enter accepts: the characters stand behind
/// the input in the order of the keys, escape forgets nothing but gives
/// nothing, and a signal that is no press of a key changes nothing.
pub proof fn lemma_typed_text_is_accepted(entry: EntryView, text: Seq<char>, signal: Signal)
    ensures
        typed(entry, text) == (EntryView { input: entry.input + text, ..entry }),
        react_to(
            typed(entry, text),
            Signal::Key { stroke: Stroke::Press, key: Key::Enter },
        ).1 == ProgressView::Accepted(entry.input + text),
        react_to(typed(entry, text), Signal::Key { stroke: Stroke::Press, key: Key::Esc }).1
            == ProgressView::Cancelled,
        !(signal matches Signal::Key { stroke: Stroke::Press, .. }) ==> react_to(entry, signal) == (
            entry,
            ProgressView::Pending,
        ),
    decreases text.len(),
{
    if text.len() == 0 {
        assert(entry.input + text =~= entry.input);
    } else {
        lemma_typed_text_is_accepted(entry, text.drop_last(), signal);
        assert((entry.input + text.drop_last()).push(text.last()) =~= entry.input + text);
    }
}

impl Entry {
    /// An entry with nothing typed yet.
    pub fn new(description: String, prompt: String) -> (entry: Entry)
        ensures
            entry@ == (EntryView {
                description: description@,
                prompt: prompt@,
                input: Seq::empty(),
            }),
    {
        Entry { description, prompt, input: String::new() }
    }

    /// Puts `new_char` behind what has been typed.
    pub fn enter_char(&mut self, new_char: char)
        ensures
            final(self)@ == (EntryView { input: old(self)@.input.push(new_char), ..old(self)@ }),
    {
        push_char(&mut self.input, new_char);
    }

    /// Takes the last character from what has been typed, where every
    /// character typed takes one byte; any other input stays as it is.
    pub fn delete_char(&mut self)
        ensures
            final(self)@ == (EntryView { input: after_delete(old(self)@.input), ..old(self)@ }),
    {
        let typed = chars_of(self.input.as_str());
        let bytes = self.input.as_str().as_bytes().len();
        if typed.len() > 0 {
            proof {
                lemma_byte_len(self.input@);
            }
            if bytes - 1 < typed.len() {
                let mut kept: String = String::new();
                let mut k: usize = 0;
                while k < bytes - 1
                    invariant
                        k <= bytes - 1 < typed.len(),
                        kept@ == typed@.take(k as int),
                    decreases bytes - 1 - k,
                {
                    push_char(&mut kept, typed[k]);
                    assert(typed@.take(k as int).push(typed@[k as int]) =~= typed@.take(k + 1));
                    k += 1;
                }
                self.input = kept;
            }
        }
    }

    /// Takes in one signal of the terminal.
    pub fn press(&mut self, signal: Signal) -> (progress: Progress)
        ensures
            (final(self)@, progress@) == react_to(old(self)@, signal),
    {
        match signal {
            Signal::Key { stroke: Stroke::Press, key } => match key {
                Key::Char(c) => {
                    self.enter_char(c);
                    Progress::Pending
                },
                Key::Backspace => {
                    self.delete_char();
                    Progress::Pending
                },
                Key::Enter => Progress::Accepted(self.input.clone()),
                Key::Esc => Progress::Cancelled,
                Key::Other => Progress::Pending,
            },
            _ => Progress::Pending,
        }
    }

    /// The lines of the description, as the screen shows them one below
    /// the other.
    pub fn description_lines(&self) -> (out: Vec<String>)
        ensures
            texts(out@) == lines(self@.description),
    {
        let text = chars_of(self.description.as_str());
        let ghost s = text@;
        let mut out: Vec<String> = Vec::new();
        let mut line: String = String::new();
        let mut i: usize = 0;
        let ghost start: int = 0;
        while i < text.len()
            invariant
                s == text@,
                0 <= start <= i <= s.len(),
                line@ == s.subrange(start, i as int),
                forall|k: int| start <= k < i ==> !breaks_at(s, k),
                lines(s) == texts(out@) + lines_from(s, start),
            decreases text.len() - i,
        {
            if text.len() - i >= 3 && text[i] == '%' && text[i + 1] == '0' && text[i + 2] == 'A' {
                proof {
                    lemma_next_break_of_run(s, start, i as int);
                    assert(texts(out@.push(line)) =~= texts(out@)
                        + seq![line@]);
                    assert(texts(out@) + seq![line@] + lines_from(s, i + 3)
                        =~= texts(out@) + (seq![line@] + lines_from(s, i + 3)));
                    start = i + 3;
                }
                out.push(line);
                line = String::new();
                i += 3;
                assert(s.subrange(start, i as int) =~= Seq::<char>::empty());
            } else {
                push_char(&mut line, text[i]);
                assert(s.subrange(start, i as int).push(s[i as int]) =~= s.subrange(start, i + 1));
                i += 1;
            }
        }
        proof {
            lemma_next_break_of_run(s, start, s.len() as int);
            assert(texts(out@.push(line)) =~= texts(out@) + seq![line@]);
        }
        out.push(line);
        out
    }

    /// What the screen shows in the place of the input.
    pub fn mask(&self) -> (out: String)
        ensures
            out@ == masked(self@.input),
    {
        let bytes = self.input.as_str().as_bytes().len();
        let mut out: String = String::new();
        let mut k: usize = 0;
        while k < bytes
            invariant
                k <= bytes,
                out@ == Seq::new(k as nat, |j: int| '*'),
            decreases bytes - k,
        {
            push_char(&mut out, '*');
            assert(Seq::new(k as nat, |j: int| '*').push('*') =~= Seq::new(
                (k + 1) as nat,
                |j: int| '*',
            ));
            k += 1;
        }
        out
    }

    /// What the screen shows above the input.
    pub fn title(&self) -> (out: String)
        ensures
            out@ == titled(self@.prompt),
    {
        let mut out: String = String::new();
        push_char(&mut out, ' ');
        out.append(self.prompt.as_str());
        push_char(&mut out, ' ');
        assert(out@ =~= titled(self@.prompt));
        out
    }

    /// Where the screen shows the cursor when the box of the input begins
    /// at column `x` and row `y`, if there is such a place.
    pub fn cursor(&self, x: u16, y: u16) -> (place: Option<(u16, u16)>)
        ensures
            place == cursor_at(self@.input, x, y),
    {
        let bytes = self.input.as_str().as_bytes().len();
        let stars: u16 = (bytes % 0x10000) as u16;
        match x.checked_add(stars) {
            Some(behind) => match behind.checked_add(1) {
                Some(column) => match y.checked_add(1) {
                    Some(row) => Some((column, row)),
                    None => None,
                },
                None => None,
            },
            None => None,
        }
    }
}

} // verus!
