//! Text handling on sequences of characters: white space, words, joining and
//! decimal numerals.

use vstd::prelude::*;

verus! {

/// Whether `c` carries the Unicode `White_Space` property.
pub open spec fn is_space(c: char) -> bool {
    let n = c as u32;
    ||| 0x09 <= n <= 0x0d
    ||| n == 0x20
    ||| n == 0x85
    ||| n == 0xa0
    ||| n == 0x1680
    ||| 0x2000 <= n <= 0x200a
    ||| n == 0x2028
    ||| n == 0x2029
    ||| n == 0x202f
    ||| n == 0x205f
    ||| n == 0x3000
}

/// The first position at or after `i` that is past the end of `s` or holds
/// white space.
pub open spec fn word_end(s: Seq<char>, i: int) -> int
    decreases s.len() - i,
{
    if 0 <= i < s.len() && !is_space(s[i]) {
        word_end(s, i + 1)
    } else {
        i
    }
}

/// The words of `s` that begin at or after position `i`: the maximal runs of
/// characters that are not white space, in the order in which they occur.
pub open spec fn words_from(s: Seq<char>, i: int) -> Seq<Seq<char>>
    decreases s.len() - i,
{
    if i < 0 || i >= s.len() {
        Seq::empty()
    } else if is_space(s[i]) {
        words_from(s, i + 1)
    } else {
        let j = word_end(s, i + 1);
        proof {
            lemma_word_end_bounds(s, i + 1);
        }
        seq![s.subrange(i, j)] + words_from(s, j)
    }
}

/// The words of `s`: what is left when `s` is cut at every run of white space.
pub open spec fn words(s: Seq<char>) -> Seq<Seq<char>> {
    words_from(s, 0)
}

/// `words` written one after the other, with a single space between
/// neighbours.
pub open spec fn join(words: Seq<Seq<char>>) -> Seq<char>
    decreases words.len(),
{
    if words.len() == 0 {
        Seq::empty()
    } else if words.len() == 1 {
        words[0]
    } else {
        join(words.drop_last()) + seq![' '] + words.last()
    }
}

/// The view of each text of `v`.
pub open spec fn texts(v: Seq<String>) -> Seq<Seq<char>> {
    v.map_values(|w: String| w@)
}

/// A word never ends before it begins, nor after the end of the text.
pub proof fn lemma_word_end_bounds(s: Seq<char>, i: int)
    requires
        0 <= i <= s.len(),
    ensures
        i <= word_end(s, i) <= s.len(),
    decreases s.len() - i,
{
    if i < s.len() && !is_space(s[i]) {
        lemma_word_end_bounds(s, i + 1);
    }
}

/// A run of characters without white space that is followed by white space,
/// or by the end of the text, ends where the run ends.
pub proof fn lemma_word_end_of_run(s: Seq<char>, a: int, b: int)
    requires
        0 <= a <= b <= s.len(),
        forall|k: int| a <= k < b ==> !is_space(#[trigger] s[k]),
        b == s.len() || is_space(s[b]),
    ensures
        word_end(s, a) == b,
    decreases b - a,
{
    if a < b {
        lemma_word_end_of_run(s, a + 1, b);
    }
}

/// Whether `w` is a word: not empty, and free of white space.
pub open spec fn is_word(w: Seq<char>) -> bool {
    w.len() > 0 && forall|k: int| 0 <= k < w.len() ==> !is_space(#[trigger] w[k])
}

/// Whether position `n` of `s` lies outside every word: at an end of the
/// text, or next to white space.
pub open spec fn is_cut(s: Seq<char>, n: int) -> bool {
    0 <= n <= s.len() && (n == 0 || n == s.len() || is_space(s[n - 1]) || is_space(s[n]))
}

/// No white space lies between a position and the end of the word that it
/// stands in.
pub proof fn lemma_word_end_is_first_space(s: Seq<char>, i: int)
    requires
        0 <= i <= s.len(),
    ensures
        forall|k: int| i <= k < word_end(s, i) ==> !is_space(#[trigger] s[k]),
        word_end(s, i) == s.len() || is_space(s[word_end(s, i)]),
    decreases s.len() - i,
{
    if i < s.len() && !is_space(s[i]) {
        lemma_word_end_is_first_space(s, i + 1);
    }
}

/// A word beginning at or after `i` ends at the latest where white space or
/// the end of the text follows.
proof fn lemma_word_end_stops(s: Seq<char>, i: int, m: int)
    requires
        0 <= i <= m <= s.len(),
        m == s.len() || is_space(s[m]),
    ensures
        word_end(s, i) <= m,
    decreases m - i,
{
    if i < m && !is_space(s[i]) {
        lemma_word_end_stops(s, i + 1, m);
    }
}

/// Where a word ends does not depend on what follows its end.
proof fn lemma_word_end_take(s: Seq<char>, n: int, i: int)
    requires
        0 <= i <= n <= s.len(),
        word_end(s, i) <= n,
    ensures
        word_end(s.take(n), i) == word_end(s, i),
    decreases n - i,
{
    if i < s.len() && !is_space(s[i]) {
        lemma_word_end_bounds(s, i + 1);
        lemma_word_end_take(s, n, i + 1);
    }
}

/// Where a word ends does not depend on what precedes its beginning.
proof fn lemma_word_end_skip(s: Seq<char>, n: int, i: int)
    requires
        0 <= n <= s.len(),
        0 <= i <= s.len() - n,
    ensures
        word_end(s, n + i) == n + word_end(s.skip(n), i),
    decreases s.len() - n - i,
{
    if i < s.len() - n && !is_space(s[n + i]) {
        lemma_word_end_skip(s, n, i + 1);
    }
}

proof fn lemma_words_from_take(s: Seq<char>, n: int, i: int)
    requires
        is_cut(s, n),
        0 <= i <= n,
    ensures
        words_from(s, i) == words_from(s.take(n), i) + words_from(s, n),
    decreases n - i,
{
    let t = s.take(n);
    if i == n {
        assert(words_from(t, i) + words_from(s, n) =~= words_from(s, n));
    } else if is_space(s[i]) {
        lemma_words_from_take(s, n, i + 1);
    } else {
        let j = word_end(s, i + 1);
        lemma_word_end_bounds(s, i + 1);
        if n == s.len() || is_space(s[n]) {
            lemma_word_end_stops(s, i + 1, n);
        } else {
            lemma_word_end_stops(s, i + 1, n - 1);
        }
        lemma_word_end_take(s, n, i + 1);
        lemma_words_from_take(s, n, j);
        assert(t.subrange(i, j) =~= s.subrange(i, j));
        assert(seq![s.subrange(i, j)] + (words_from(t, j) + words_from(s, n)) =~= seq![
            s.subrange(i, j),
        ] + words_from(t, j) + words_from(s, n));
    }
}

proof fn lemma_words_from_skip(s: Seq<char>, n: int, i: int)
    requires
        0 <= n <= s.len(),
        0 <= i <= s.len() - n,
    ensures
        words_from(s, n + i) == words_from(s.skip(n), i),
    decreases s.len() - n - i,
{
    let t = s.skip(n);
    if i < s.len() - n {
        if is_space(s[n + i]) {
            lemma_words_from_skip(s, n, i + 1);
        } else {
            lemma_word_end_skip(s, n, i + 1);
            lemma_word_end_bounds(t, i + 1);
            let j = word_end(t, i + 1);
            lemma_words_from_skip(s, n, j);
            assert(t.subrange(i, j) =~= s.subrange(n + i, n + j));
        }
    }
}

/// Every word of a text is a word: not empty, and free of white space.
pub proof fn lemma_words_are_words(s: Seq<char>)
    ensures
        forall|k: int| 0 <= k < words(s).len() ==> is_word(#[trigger] words(s)[k]),
{
    lemma_words_from_are_words(s, 0);
}

proof fn lemma_words_from_are_words(s: Seq<char>, i: int)
    requires
        0 <= i,
    ensures
        forall|k: int| 0 <= k < words_from(s, i).len() ==> is_word(#[trigger] words_from(s, i)[k]),
    decreases s.len() - i,
{
    let w = words_from(s, i);
    if i < s.len() {
        if is_space(s[i]) {
            lemma_words_from_are_words(s, i + 1);
            assert(w == words_from(s, i + 1));
        } else {
            let j = word_end(s, i + 1);
            lemma_word_end_bounds(s, i + 1);
            lemma_word_end_is_first_space(s, i + 1);
            lemma_words_from_are_words(s, j);
            assert(is_word(s.subrange(i, j)));
            assert(w == seq![s.subrange(i, j)] + words_from(s, j));
            assert forall|k: int| 0 <= k < w.len() implies is_word(#[trigger] w[k]) by {
                if k > 0 {
                    assert(w[k] == words_from(s, j)[k - 1]);
                }
            }
        }
    } else {
        assert(w.len() == 0);
    }
}

/// A text that is one word has itself as its only word.
pub proof fn lemma_words_of_word(w: Seq<char>)
    requires
        is_word(w),
    ensures
        words(w) == seq![w],
{
    lemma_word_end_of_run(w, 1, w.len() as int);
    assert(w.subrange(0, w.len() as int) =~= w);
    assert(words_from(w, w.len() as int) =~= Seq::<Seq<char>>::empty());
    assert(seq![w] + Seq::<Seq<char>>::empty() =~= seq![w]);
}

/// A text without a word is white space throughout, and the other way
/// round.
pub proof fn lemma_no_words_iff_blank(s: Seq<char>)
    ensures
        words(s).len() == 0 <==> forall|k: int| 0 <= k < s.len() ==> is_space(#[trigger] s[k]),
{
    lemma_no_words_from_iff_blank(s, 0);
}

proof fn lemma_no_words_from_iff_blank(s: Seq<char>, i: int)
    requires
        0 <= i,
    ensures
        words_from(s, i).len() == 0 <==> forall|k: int| i <= k < s.len() ==> is_space(#[trigger] s[k]),
    decreases s.len() - i,
{
    if i < s.len() {
        if is_space(s[i]) {
            lemma_no_words_from_iff_blank(s, i + 1);
        }
    }
}

/// Cutting a text between two words, and then each part into its words,
/// gives the words of the whole.
pub proof fn lemma_words_split(s: Seq<char>, n: int)
    requires
        is_cut(s, n),
    ensures
        words(s) == words(s.take(n)) + words(s.skip(n)),
{
    lemma_words_from_take(s, n, 0);
    lemma_words_from_skip(s, n, 0);
}

/// Words that are joined by single spaces come apart again as they were.
pub proof fn lemma_words_of_join(w: Seq<Seq<char>>)
    requires
        forall|k: int| 0 <= k < w.len() ==> is_word(#[trigger] w[k]),
    ensures
        words(join(w)) == w,
    decreases w.len(),
{
    if w.len() == 0 {
    } else if w.len() == 1 {
        lemma_words_of_word(w[0]);
        assert(w =~= seq![w[0]]);
    } else {
        let head = join(w.drop_last());
        let s = join(w);
        let n = head.len() as int;
        lemma_words_of_join(w.drop_last());
        assert(s.take(n) =~= head);
        assert(s.skip(n) =~= seq![' '] + w.last());
        assert(s.skip(n).skip(1) =~= w.last());
        assert(s.skip(n).take(1) =~= seq![' ']);
        lemma_words_split(s, n);
        lemma_words_split(s.skip(n), 1);
        lemma_words_of_word(w.last());
        assert(words(seq![' ']) =~= Seq::<Seq<char>>::empty()) by {
            reveal_with_fuel(words_from, 2);
        }
        assert(w.drop_last() + (Seq::<Seq<char>>::empty() + seq![w.last()]) =~= w);
    }
}

/// Moving a finished word from the text that is still to be cut to the words
/// already found leaves the whole unchanged.
proof fn lemma_push_word(s: Seq<char>, out: Seq<String>, word: String, start: int, end: int)
    requires
        0 <= start < end <= s.len(),
        !is_space(s[start]),
        word_end(s, start + 1) == end,
        word@ == s.subrange(start, end),
    ensures
        texts(out.push(word)) + words_from(s, end) == texts(out) + words_from(s, start),
{
    assert(texts(out.push(word)) =~= texts(out) + seq![word@]);
    assert(texts(out) + seq![word@] + words_from(s, end) =~= texts(out) + (seq![word@]
        + words_from(s, end)));
}

/// Tests a character for the Unicode `White_Space` property.
pub fn is_whitespace(c: char) -> (b: bool)
    ensures
        b == is_space(c),
{
    let n: u32 = c as u32;
    (0x09 <= n && n <= 0x0d) || n == 0x20 || n == 0x85 || n == 0xa0 || n == 0x1680 || (0x2000 <= n
        && n <= 0x200a) || n == 0x2028 || n == 0x2029 || n == 0x202f || n == 0x205f || n == 0x3000
}

/// `String::push`: puts `c` behind the last character of `s` and leaves the
/// characters before it as they were.
#[verifier::external_body]
pub(crate) fn push_char(s: &mut String, c: char)
    ensures
        final(s)@ == old(s)@.push(c),
{
    s.push(c)
}

/// The characters of `s`, in order.
pub fn chars_of(s: &str) -> (out: Vec<char>)
    ensures
        out@ == s@,
{
    let mut out: Vec<char> = Vec::new();
    for c in it: s.chars()
        invariant
            it.seq() == s@,
            out@ == s@.take(it.index() as int),
    {
        assert(s@.take(it.index() as int).push(c) =~= s@.take(it.index() + 1));
        out.push(c);
    }
    assert(s@.take(s@.len() as int) =~= s@);
    out
}

/// Cuts `s` at white space and returns its words in order.
pub fn split_words(s: &str) -> (out: Vec<String>)
    ensures
        texts(out@) == words(s@),
{
    let mut out: Vec<String> = Vec::new();
    let mut word: String = String::new();
    let mut inside: bool = false;
    let ghost start: int = 0;
    for c in it: s.chars()
        invariant
            it.seq() == s@,
            inside ==> 0 <= start < it.index(),
            inside ==> word@ == s@.subrange(start, it.index() as int),
            inside ==> forall|k: int| start <= k < it.index() ==> !is_space(#[trigger] s@[k]),
            !inside ==> word@.len() == 0,
            words(s@) == texts(out@) + words_from(
                s@,
                if inside {
                    start
                } else {
                    it.index() as int
                },
            ),
    {
        let ghost i = it.index() as int;
        assert(0 <= i < s@.len() && s@[i] == c);
        if is_whitespace(c) {
            if inside {
                proof {
                    lemma_word_end_of_run(s@, start + 1, i);
                    lemma_push_word(s@, out@, word, start, i);
                }
                out.push(word);
                word = String::new();
                inside = false;
            }
        } else {
            proof {
                if !inside {
                    start = i;
                }
                assert(s@.subrange(start, i).push(c) =~= s@.subrange(start, i + 1));
            }
            push_char(&mut word, c);
            inside = true;
        }
    }
    if inside {
        proof {
            lemma_word_end_of_run(s@, start + 1, s@.len() as int);
            lemma_push_word(s@, out@, word, start, s@.len() as int);
        }
        out.push(word);
    }
    assert(texts(out@) + Seq::<Seq<char>>::empty() =~= texts(out@));
    out
}

/// Writes the words of `words` from position `from` on one after the other,
/// with a single space between neighbours. Where `words` has no such
/// position, nothing is written.
pub fn join_words(words: &Vec<String>, from: usize) -> (out: String)
    ensures
        out@ == if from <= words.len() {
            join(texts(words@).skip(from as int))
        } else {
            Seq::empty()
        },
{
    let mut out: String = String::new();
    if from > words.len() {
        return out;
    }
    let mut k: usize = from;
    while k < words.len()
        invariant
            from <= k <= words.len(),
            out@ == join(texts(words@).subrange(from as int, k as int)),
        decreases words.len() - k,
    {
        proof {
            let next = texts(words@).subrange(from as int, k + 1);
            assert(next.drop_last() =~= texts(words@).subrange(from as int, k as int));
            assert(next.last() == words@[k as int]@);
            assert(Seq::<char>::empty() + words@[k as int]@ =~= words@[k as int]@);
        }
        if k > from {
            push_char(&mut out, ' ');
        }
        out.append(words[k].as_str());
        k += 1;
    }
    assert(texts(words@).subrange(from as int, k as int) =~= texts(words@).skip(from as int));
    out
}

/// Whether `a` and `b` hold the same characters.
pub fn same_text(a: &str, b: &str) -> (same: bool)
    ensures
        same == (a@ == b@),
{
    let x = a.to_owned();
    let y = b.to_owned();
    x == y
}

/// The character that stands for the digit `d`.
pub open spec fn digit_char(d: int) -> char {
    if d == 0 {
        '0'
    } else if d == 1 {
        '1'
    } else if d == 2 {
        '2'
    } else if d == 3 {
        '3'
    } else if d == 4 {
        '4'
    } else if d == 5 {
        '5'
    } else if d == 6 {
        '6'
    } else if d == 7 {
        '7'
    } else if d == 8 {
        '8'
    } else {
        '9'
    }
}

/// The decimal numeral of `n`, without leading zeros.
pub open spec fn decimal(n: nat) -> Seq<char>
    decreases n,
{
    if n < 10 {
        seq![digit_char(n as int)]
    } else {
        decimal(n / 10).push(digit_char((n % 10) as int))
    }
}

/// The number that a numeral stands for.
pub open spec fn value(numeral: Seq<char>) -> nat
    decreases numeral.len(),
{
    if numeral.len() == 0 {
        0
    } else {
        10 * value(numeral.drop_last()) + (numeral.last() as u32 - '0' as u32) as nat
    }
}

/// A decimal numeral is made of digits, begins with a zero only where it is
/// the numeral of zero, and stands for the number that it was made from.
pub proof fn lemma_decimal_reads_back(n: nat)
    ensures
        decimal(n).len() > 0,
        forall|k: int| 0 <= k < decimal(n).len() ==> '0' <= #[trigger] decimal(n)[k] <= '9',
        decimal(n)[0] == '0' <==> n == 0,
        value(decimal(n)) == n,
    decreases n,
{
    let last = digit_char((n % 10) as int);
    assert(last as u32 - '0' as u32 == n % 10);
    assert(decimal(n).last() == last);
    if n < 10 {
        assert(decimal(n).drop_last() =~= Seq::<char>::empty());
        assert(value(Seq::<char>::empty()) == 0);
    } else {
        lemma_decimal_reads_back(n / 10);
        assert(decimal(n).drop_last() =~= decimal(n / 10));
    }
}

fn digit(d: u32) -> (c: char)
    requires
        d < 10,
    ensures
        c == digit_char(d as int),
{
    if d == 0 {
        '0'
    } else if d == 1 {
        '1'
    } else if d == 2 {
        '2'
    } else if d == 3 {
        '3'
    } else if d == 4 {
        '4'
    } else if d == 5 {
        '5'
    } else if d == 6 {
        '6'
    } else if d == 7 {
        '7'
    } else if d == 8 {
        '8'
    } else {
        '9'
    }
}

fn push_decimal(out: &mut String, n: u32)
    ensures
        final(out)@ == old(out)@ + decimal(n as nat),
    decreases n,
{
    if n >= 10 {
        push_decimal(out, n / 10);
    }
    push_char(out, digit(n % 10));
    assert(old(out)@ + decimal(n as nat) =~= if n >= 10 {
        (old(out)@ + decimal((n / 10) as nat)).push(digit_char((n % 10) as int))
    } else {
        old(out)@.push(digit_char(n as int))
    });
}

/// Writes `n` as a decimal numeral.
pub fn to_decimal(n: u32) -> (out: String)
    ensures
        out@ == decimal(n as nat),
{
    let mut out: String = String::new();
    push_decimal(&mut out, n);
    assert(Seq::<char>::empty() + decimal(n as nat) =~= decimal(n as nat));
    out
}

} // verus!
