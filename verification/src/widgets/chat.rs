use vstd::prelude::*;
use vstd::string::StrSliceExecFns;

use crate::text::push_char;

verus! {

/// The side of the chat box a message is shown on.
#[derive(Clone, Copy, PartialEq, Eq, Structural, Debug)]
pub enum Side {
    /// The left side (messages from the remote peer).
    Left,
    /// The right side (messages sent locally).
    Right,
}

/// A chat message.
#[derive(Clone, Debug)]
pub struct Message {
    /// The text of the message.
    pub content: String,
    /// The side of the chat box it is shown on.
    pub side: Side,
}

/// The mathematical content of a [`Message`].
pub struct MessageView {
    /// The characters of the message.
    pub content: Seq<char>,
    /// The side of the chat box it is shown on.
    pub side: Side,
}

impl View for Message {
    type V = MessageView;

    open spec fn view(&self) -> MessageView {
        MessageView { content: self.content@, side: self.side }
    }
}

impl Message {
    /// Creates a new message that will be displayed on the given side.
    pub fn new(content: String, side: Side) -> (r: Self)
        ensures
            r@.content == content@,
            r@.side == side,
    {
        Message { content, side }
    }
}

/// The scroll state of the chat widget: which message is selected and how
/// far the view is scrolled back from the newest message.
#[derive(Clone, Copy, PartialEq, Eq, Structural, Debug)]
pub struct ChatState {
    /// The selected message, if any.
    pub selected: Option<usize>,
    /// How many of the newest messages are scrolled out of view.
    pub offset: usize,
}

impl Default for ChatState {
    /// Nothing selected, scrolled to the newest message.
    fn default() -> (r: Self)
        ensures
            r.selected is None,
            r.offset == 0,
    {
        ChatState { selected: None, offset: 0 }
    }
}

impl ChatState {
    /// Returns the newest message index visible.
    pub fn offset(&self) -> (r: usize)
        ensures
            r == self.offset,
    {
        self.offset
    }

    /// Selects a message by its index; clearing the selection also scrolls
    /// back to the newest message.
    pub fn select(&mut self, index: Option<usize>)
        ensures
            final(self).selected == index,
            final(self).offset == if index is None { 0usize } else { old(self).offset },
    {
        self.selected = index;
        if index.is_none() {
            self.offset = 0;
        }
    }

    /// Scrolls down in the message list (towards newer messages).
    pub fn scroll_down(&mut self)
        ensures
            final(self).selected == old(self).selected,
            final(self).offset == if old(self).offset == 0 { 0usize } else { (old(self).offset - 1) as usize },
    {
        if self.offset != 0 {
            self.offset = self.offset - 1;
        }
    }

    /// Scrolls up in the message list (towards older messages); the offset
    /// stops at its largest representable value rather than overflowing.
    pub fn scroll_up(&mut self)
        ensures
            final(self).selected == old(self).selected,
            final(self).offset == if old(self).offset == usize::MAX { usize::MAX } else { (old(self).offset + 1) as usize },
    {
        if self.offset != usize::MAX {
            self.offset = self.offset + 1;
        }
    }
}

/// The characters `wrap_text` treats as word separators.
pub open spec fn is_blank(c: char) -> bool {
    c == ' ' || c == '\t' || c == '\n' || c == '\r'
}

/// The words of `s` from position `i` on, reading outside any word.
pub open spec fn words_from(s: Seq<char>, i: int) -> Seq<Seq<char>>
    decreases s.len() - i, 0int,
{
    if i >= s.len() {
        Seq::empty()
    } else if is_blank(s[i]) {
        words_from(s, i + 1)
    } else {
        words_in(s, i + 1, seq![s[i]])
    }
}

/// The words of `s` from position `i` on, with the word read so far in `cur`.
pub open spec fn words_in(s: Seq<char>, i: int, cur: Seq<char>) -> Seq<Seq<char>>
    decreases s.len() - i, 1int,
{
    if i >= s.len() {
        seq![cur]
    } else if is_blank(s[i]) {
        seq![cur] + words_from(s, i + 1)
    } else {
        words_in(s, i + 1, cur.push(s[i]))
    }
}

/// Greedy packing of the words `ws[i..]` into lines of at most `max`
/// characters, with the line assembled so far in `cur`. A word longer than
/// `max` gets a line of its own rather than being split.
pub open spec fn pack_from(ws: Seq<Seq<char>>, i: int, cur: Seq<char>, max: int) -> Seq<Seq<char>>
    decreases ws.len() - i,
{
    if i >= ws.len() {
        if cur.len() == 0 {
            Seq::empty()
        } else {
            seq![cur]
        }
    } else if cur.len() == 0 {
        pack_from(ws, i + 1, ws[i], max)
    } else if cur.len() + 1 + ws[i].len() <= max {
        pack_from(ws, i + 1, cur + seq![' '] + ws[i], max)
    } else {
        seq![cur] + pack_from(ws, i + 1, ws[i], max)
    }
}

/// The lines produced by greedily packing `ws` into width `max`.
pub open spec fn packed_lines(ws: Seq<Seq<char>>, max: int) -> Seq<Seq<char>> {
    pack_from(ws, 0, Seq::empty(), max)
}

/// The length of the longest line.
pub open spec fn max_line_len(ls: Seq<Seq<char>>) -> int
    decreases ls.len(),
{
    if ls.len() == 0 {
        0
    } else {
        let rest = max_line_len(ls.drop_last());
        if ls.last().len() > rest {
            ls.last().len() as int
        } else {
            rest
        }
    }
}

/// No line is longer than the longest one.
proof fn lemma_max_line_len_bound(ls: Seq<Seq<char>>, k: int)
    requires
        0 <= k < ls.len(),
    ensures
        ls[k].len() <= max_line_len(ls),
    decreases ls.len(),
{
    if k < ls.len() - 1 {
        lemma_max_line_len_bound(ls.drop_last(), k);
        assert(ls.drop_last()[k] == ls[k]);
    }
}

/// `l` padded on the right with spaces to length `n`.
pub open spec fn pad_line(l: Seq<char>, n: int) -> Seq<char> {
    if l.len() >= n {
        l
    } else {
        l + Seq::new((n - l.len()) as nat, |j: int| ' ')
    }
}

/// What [`wrap_text`] returns: the words of `s` greedily packed into lines
/// of at most `max` characters, each line padded with spaces to the length
/// of the longest line.
pub open spec fn wrap_spec(s: Seq<char>, max: int) -> Seq<Seq<char>> {
    let ls = packed_lines(words_from(s, 0), max);
    ls.map_values(|l: Seq<char>| pad_line(l, max_line_len(ls)))
}

/// The view of each word in `ws`.
pub open spec fn word_views(ws: Seq<Vec<char>>) -> Seq<Seq<char>> {
    ws.map_values(|w: Vec<char>| w@)
}

/// Splits `s` into its words: maximal runs of non-blank characters.
fn split_words(s: &str) -> (r: Vec<Vec<char>>)
    ensures
        word_views(r@) == words_from(s@, 0),
{
    let n: usize = s.unicode_len();
    let mut words: Vec<Vec<char>> = Vec::new();
    let mut cur: Vec<char> = Vec::new();
    let mut i: usize = 0;
    while i < n
        invariant
            n == s@.len(),
            i <= n,
            cur@.len() == 0 ==> word_views(words@) + words_from(s@, i as int) == words_from(s@, 0),
            cur@.len() > 0 ==> word_views(words@) + words_in(s@, i as int, cur@) == words_from(s@, 0),
        decreases n - i,
    {
        let c = s.get_char(i);
        let blank: bool = c == ' ' || c == '\t' || c == '\n' || c == '\r';
        if blank {
            if cur.len() > 0 {
                let ghost prev_words = words@;
                let ghost prev_cur = cur@;
                words.push(cur);
                cur = Vec::new();
                proof {
                    assert(word_views(words@) =~= word_views(prev_words).push(prev_cur));
                    assert(word_views(words@) + words_from(s@, i + 1) =~= word_views(
                        prev_words,
                    ) + (seq![prev_cur] + words_from(s@, i + 1)));
                }
            }
        } else {
            let ghost prev_cur = cur@;
            cur.push(c);
            proof {
                if prev_cur.len() == 0 {
                    assert(cur@ =~= seq![c]);
                }
            }
        }
        i = i + 1;
    }
    if cur.len() > 0 {
        let ghost prev_words = words@;
        let ghost prev_cur = cur@;
        words.push(cur);
        proof {
            assert(word_views(words@) =~= word_views(prev_words).push(prev_cur));
            assert(word_views(prev_words) + seq![prev_cur] =~= word_views(words@));
        }
    }
    words
}

/// Packs `words` greedily into lines of at most `max_width` characters.
fn pack_words(words: &Vec<Vec<char>>, max_width: usize) -> (r: Vec<Vec<char>>)
    ensures
        word_views(r@) == packed_lines(word_views(words@), max_width as int),
{
    let ghost ws = word_views(words@);
    let mut lines: Vec<Vec<char>> = Vec::new();
    let mut cur: Vec<char> = Vec::new();
    let mut j: usize = 0;
    while j < words.len()
        invariant
            j <= words.len(),
            ws == word_views(words@),
            word_views(lines@) + pack_from(ws, j as int, cur@, max_width as int) == packed_lines(
                ws,
                max_width as int,
            ),
        decreases words.len() - j,
    {
        let word = &words[j];
        if cur.len() == 0 {
            let mut next: Vec<char> = Vec::new();
            next.extend_from_slice(word.as_slice());
            proof {
                assert(next@ =~= ws[j as int]);
            }
            cur = next;
        } else {
            let fits: bool = cur.len() < max_width && word.len() <= max_width - cur.len() - 1;
            proof {
                assert(fits <==> cur@.len() + 1 + ws[j as int].len() <= max_width as int);
            }
            if fits {
                let ghost prev_cur = cur@;
                cur.push(' ');
                cur.extend_from_slice(word.as_slice());
                proof {
                    assert(cur@ =~= prev_cur + seq![' '] + ws[j as int]);
                }
            } else {
                let ghost prev_lines = lines@;
                let ghost prev_cur = cur@;
                lines.push(cur);
                let mut next: Vec<char> = Vec::new();
                next.extend_from_slice(word.as_slice());
                proof {
                    assert(next@ =~= ws[j as int]);
                }
                cur = next;
                proof {
                    assert(word_views(lines@) =~= word_views(prev_lines).push(prev_cur));
                    assert(word_views(lines@) + pack_from(ws, j + 1, cur@, max_width as int)
                        =~= word_views(prev_lines) + (seq![prev_cur] + pack_from(
                        ws,
                        j + 1,
                        cur@,
                        max_width as int,
                    )));
                }
            }
        }
        j = j + 1;
    }
    if cur.len() > 0 {
        let ghost prev_lines = lines@;
        let ghost prev_cur = cur@;
        lines.push(cur);
        proof {
            assert(word_views(lines@) =~= word_views(prev_lines).push(prev_cur));
            assert(word_views(prev_lines) + seq![prev_cur] =~= word_views(lines@));
        }
    } else {
        proof {
            assert(word_views(lines@) + Seq::<Seq<char>>::empty() =~= word_views(lines@));
        }
    }
    lines
}

/// Pads every line on the right with spaces to the length of the longest.
fn pad_lines(lines: Vec<Vec<char>>) -> (r: Vec<Vec<char>>)
    ensures
        word_views(r@) == word_views(lines@).map_values(
            |l: Seq<char>| pad_line(l, max_line_len(word_views(lines@))),
        ),
{
    let ghost ls = word_views(lines@);
    let mut longest: usize = 0;
    let mut k: usize = 0;
    while k < lines.len()
        invariant
            k <= lines.len(),
            ls == word_views(lines@),
            longest == max_line_len(ls.take(k as int)),
        decreases lines.len() - k,
    {
        proof {
            assert(ls.take(k + 1).drop_last() =~= ls.take(k as int));
            assert(ls.take(k + 1).last() == ls[k as int]);
        }
        if lines[k].len() > longest {
            longest = lines[k].len();
        }
        k = k + 1;
    }
    proof {
        assert(ls.take(lines@.len() as int) =~= ls);
    }
    let mut out: Vec<Vec<char>> = Vec::new();
    let mut k2: usize = 0;
    while k2 < lines.len()
        invariant
            k2 <= lines.len(),
            ls == word_views(lines@),
            longest == max_line_len(ls),
            word_views(out@) == ls.take(k2 as int).map_values(
                |l: Seq<char>| pad_line(l, max_line_len(ls)),
            ),
        decreases lines.len() - k2,
    {
        let mut line: Vec<char> = Vec::new();
        line.extend_from_slice(lines[k2].as_slice());
        proof {
            assert(line@ =~= ls[k2 as int]);
            lemma_max_line_len_bound(ls, k2 as int);
        }
        let ghost base = line@;
        while line.len() < longest
            invariant
                base == ls[k2 as int],
                base.len() <= line@.len() <= longest,
                line@ =~= base + Seq::new((line@.len() - base.len()) as nat, |j: int| ' '),
            decreases longest - line@.len(),
        {
            let ghost prev = line@;
            line.push(' ');
            proof {
                assert(line@ =~= base + Seq::new((line@.len() - base.len()) as nat, |j: int| ' '));
            }
        }
        proof {
            assert(line@ =~= pad_line(ls[k2 as int], longest as int));
        }
        let ghost prev_out = out@;
        out.push(line);
        k2 = k2 + 1;
        proof {
            assert(word_views(out@) =~= word_views(prev_out).push(
                pad_line(ls[k2 - 1], longest as int),
            ));
            assert(word_views(out@) =~= ls.take(k2 as int).map_values(
                |l: Seq<char>| pad_line(l, max_line_len(ls)),
            ));
        }
    }
    proof {
        assert(ls.take(lines@.len() as int) =~= ls);
    }
    out
}

/// Builds a `String` holding exactly the given characters.
fn chars_to_string(v: &Vec<char>) -> (r: String)
    ensures
        r@ == v@,
{
    let mut s = String::new();
    let mut i: usize = 0;
    while i < v.len()
        invariant
            i <= v.len(),
            s@ == v@.take(i as int),
        decreases v.len() - i,
    {
        push_char(&mut s, v[i]);
        i = i + 1;
        proof {
            assert(v@.take(i as int) =~= v@.take(i - 1).push(v@[i - 1]));
        }
    }
    proof {
        assert(v@.take(v@.len() as int) =~= v@);
    }
    s
}

/// Turns a string into lines wrapped at the given maximum width.
///
/// Words (maximal runs of non-blank characters) are packed greedily: a word
/// is appended to the current line when it fits after a single separating
/// space, and otherwise starts a new line. Every line is then padded on the
/// right with spaces to the length of the longest line.
pub fn wrap_text(s: &str, max_width: usize) -> (r: Vec<String>)
    ensures
        r@.map_values(|l: String| l@) == wrap_spec(s@, max_width as int),
{
    let words = split_words(s);
    let lines = pack_words(&words, max_width);
    let padded = pad_lines(lines);
    let mut out: Vec<String> = Vec::new();
    let mut i: usize = 0;
    while i < padded.len()
        invariant
            i <= padded.len(),
            word_views(padded@) == wrap_spec(s@, max_width as int),
            out@.map_values(|l: String| l@) == word_views(padded@).take(i as int),
        decreases padded.len() - i,
    {
        let ghost prev_out = out@;
        let line = chars_to_string(&padded[i]);
        out.push(line);
        i = i + 1;
        proof {
            assert(out@.map_values(|l: String| l@) =~= prev_out.map_values(|l: String| l@).push(
                padded@[i - 1]@,
            ));
            assert(word_views(padded@).take(i as int) =~= word_views(padded@).take(i - 1).push(
                word_views(padded@)[i - 1],
            ));
        }
    }
    proof {
        assert(word_views(padded@).take(padded@.len() as int) =~= word_views(padded@));
    }
    out
}

} // verus!
