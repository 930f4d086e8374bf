//! Event streams: from bytes to lines.

use vstd::prelude::*;
use vstd::utf8::{
    decode_first_scalar, decode_utf8, decode_utf8_first_scalar, leading_byte_width_1,
    length_of_first_scalar, pop_first_scalar, take_first_scalar, valid_utf8, valid_utf8_concat,
};

use crate::text::{
    chars_of, concat2, find_from, first_at, lemma_first_at, lemma_first_at_skip, occurs_at,
    strip_return, text_lines, without_return,
};

verus! {

/// Calls `std::str::from_utf8`: the bytes as text where they are valid UTF-8, and nothing where
/// they are not.
#[verifier::external_body]
fn utf8_text(bytes: &[u8]) -> (r: Option<&str>)
    ensures
        match r {
            Some(s) => valid_utf8(bytes@) && s@ == decode_utf8(bytes@),
            None => !valid_utf8(bytes@),
        },
{
    std::str::from_utf8(bytes).ok()
}

/// The text that bytes are read as where what is not valid UTF-8 is replaced.
pub uninterp spec fn lossy_utf8(bytes: Seq<u8>) -> Seq<char>;

/// Calls `String::from_utf8_lossy`. The text depends on the bytes alone and is named
/// `lossy_utf8`; bytes that are valid UTF-8 are read as they stand.
#[verifier::external_body]
pub(crate) fn lossy_text(bytes: &[u8]) -> (r: String)
    ensures
        r@ == lossy_utf8(bytes@),
        valid_utf8(bytes@) ==> r@ == decode_utf8(bytes@),
{
    String::from_utf8_lossy(bytes).into_owned()
}

/// The text that a chunk of bytes adds to a stream: none where it is not valid UTF-8.
pub open spec fn chunk_text(bytes: Seq<u8>) -> Seq<char> {
    if valid_utf8(bytes) {
        decode_utf8(bytes)
    } else {
        Seq::empty()
    }
}

/// The lines of a text that have ended, without their line feeds.
pub open spec fn ended_lines(t: Seq<char>) -> Seq<Seq<char>>
    decreases t.len(),
{
    match first_at(t, seq!['\n'], 0) {
        None => Seq::empty(),
        Some(i) => if 0 <= i < t.len() {
            seq![t.take(i)] + ended_lines(t.skip(i + 1))
        } else {
            Seq::empty()
        },
    }
}

/// The last line of a text, which has not ended.
pub open spec fn open_line(t: Seq<char>) -> Seq<char>
    decreases t.len(),
{
    match first_at(t, seq!['\n'], 0) {
        None => t,
        Some(i) => if 0 <= i < t.len() {
            open_line(t.skip(i + 1))
        } else {
            t
        },
    }
}

/// How a text is cut into two pieces makes no difference to its lines: those of the first piece
/// come first, and its open line goes on in the second piece.
pub proof fn law_lines_of_pieces(first: Seq<char>, second: Seq<char>)
    ensures
        ended_lines(first + second) == ended_lines(first) + ended_lines(open_line(first) + second),
        open_line(first + second) == open_line(open_line(first) + second),
    decreases first.len(),
{
    let feed = seq!['\n'];
    lemma_first_at(first, feed, 0);
    match first_at(first, feed, 0) {
        None => {
            assert(ended_lines(first) + ended_lines(first + second) =~= ended_lines(
                first + second,
            ));
        },
        Some(i) => {
            let whole = first + second;
            lemma_first_of_pieces(first, second, i);
            assert(whole.take(i) =~= first.take(i));
            assert(whole.skip(i + 1) =~= first.skip(i + 1) + second);
            law_lines_of_pieces(first.skip(i + 1), second);
            assert(ended_lines(whole) =~= ended_lines(first) + ended_lines(
                open_line(first) + second,
            ));
        },
    }
}

/// The first line feed of a text is that of any longer text that it starts.
proof fn lemma_first_of_pieces(first: Seq<char>, second: Seq<char>, i: int)
    requires
        first_at(first, seq!['\n'], 0) == Some(i),
    ensures
        0 <= i < first.len(),
        first_at(first + second, seq!['\n'], 0) == Some(i),
{
    let feed = seq!['\n'];
    let whole = first + second;
    lemma_first_at(first, feed, 0);
    lemma_first_at(whole, feed, 0);
    assert(whole.subrange(i, i + 1) =~= first.subrange(i, i + 1));
    assert(occurs_at(whole, feed, i));
    match first_at(whole, feed, 0) {
        Some(k) => {
            if k < i {
                assert(first.subrange(k, k + 1) =~= whole.subrange(k, k + 1));
                assert(occurs_at(first, feed, k));
            }
        },
        None => {},
    }
}

/// The line of a stream that has not ended.
#[derive(Debug, Clone, PartialEq)]
pub struct LineBuffer {
    pub rest: String,
}

impl View for LineBuffer {
    type V = Seq<char>;

    open spec fn view(&self) -> Seq<char> {
        self.rest@
    }
}

impl LineBuffer {
    /// The buffer at the start of a stream.
    pub fn new() -> (r: LineBuffer)
        ensures
            r@ == Seq::<char>::empty(),
    {
        LineBuffer { rest: String::new() }
    }

    /// Takes text from the stream. Returns the lines that end in it.
    pub fn feed(&mut self, text: &str) -> (r: Vec<String>)
        ensures
            r.deep_view() == ended_lines(old(self)@ + text@),
            final(self)@ == open_line(old(self)@ + text@),
    {
        let whole = concat2(self.rest.as_str(), text);
        let s = whole.as_str();
        let chars = chars_of(s);
        let feed: Vec<char> = vec!['\n'];
        assert(feed@ =~= seq!['\n']);
        let mut out: Vec<String> = Vec::new();
        let mut from: usize = 0;
        assert(s@.skip(0) =~= s@);
        assert(out.deep_view() + ended_lines(s@.skip(0)) =~= ended_lines(s@));
        loop
            invariant_except_break
                chars@ == s@,
                feed@ == seq!['\n'],
                from <= chars.len(),
                out.deep_view() + ended_lines(s@.skip(from as int)) == ended_lines(s@),
                open_line(s@.skip(from as int)) == open_line(s@),
            ensures
                chars@ == s@,
                from <= chars.len(),
                out.deep_view() == ended_lines(s@),
                s@.skip(from as int) == open_line(s@),
            decreases chars.len() - from,
        {
            let ghost rest = s@.skip(from as int);
            let ghost before = out.deep_view();
            proof {
                lemma_first_at_skip(s@, seq!['\n'], from as int, from as int);
                lemma_first_at(s@, seq!['\n'], from as int);
            }
            match find_from(&chars, &feed, from) {
                None => {
                    assert(out.deep_view() + ended_lines(rest) =~= out.deep_view());
                    break;
                },
                Some(i) => {
                    let ghost line = rest.take(i - from);
                    proof {
                        assert(line =~= s@.subrange(from as int, i as int));
                        assert(rest.skip(i - from + 1) =~= s@.skip(i + 1));
                    }
                    out.push(s.substring_char(from, i).to_owned());
                    assert(out.deep_view() =~= before.push(line));
                    assert(out.deep_view() + ended_lines(s@.skip(i + 1)) =~= before + ended_lines(
                        rest,
                    ));
                    from = i + 1;
                },
            }
        }
        assert(s@.subrange(from as int, s@.len() as int) =~= s@.skip(from as int));
        self.rest = s.substring_char(from, chars.len()).to_owned();
        out
    }

    /// Takes a chunk of bytes from the stream. Returns the lines that end in it. A chunk that is
    /// not valid UTF-8 is passed over.
    pub fn feed_bytes(&mut self, bytes: &[u8]) -> (r: Vec<String>)
        ensures
            r.deep_view() == ended_lines(old(self)@ + chunk_text(bytes@)),
            final(self)@ == open_line(old(self)@ + chunk_text(bytes@)),
    {
        match utf8_text(bytes) {
            Some(text) => self.feed(text),
            None => {
                proof {
                    reveal_strlit("");
                    assert(""@ =~= Seq::<char>::empty());
                }
                self.feed("")
            },
        }
    }
}

/// The text that bytes are read as: what they encode where they are valid UTF-8, and otherwise what
/// stands for them.
pub open spec fn read_text(bytes: Seq<u8>) -> Seq<char> {
    if valid_utf8(bytes) {
        decode_utf8(bytes)
    } else {
        lossy_utf8(bytes)
    }
}

/// The lines that end in bytes, given the bytes of the line that they go on, and the bytes of the
/// line that has not ended after them. A line ends with a line feed or with a carriage return and
/// a line feed, and is read as text when it has ended.
pub open spec fn lines_from(rest: Seq<u8>, bytes: Seq<u8>) -> (Seq<Seq<char>>, Seq<u8>)
    decreases bytes.len(),
{
    if bytes.len() == 0 {
        (Seq::empty(), rest)
    } else {
        let (ended, open) = lines_from(rest, bytes.drop_last());
        if bytes.last() == 10 {
            (ended.push(without_return(read_text(open))), Seq::empty())
        } else {
            (ended, open.push(bytes.last()))
        }
    }
}

/// The last line of a stream, where it lacks its end: the bytes that are left, read as text.
pub open spec fn last_line(rest: Seq<u8>) -> Seq<Seq<char>> {
    if rest.len() == 0 {
        Seq::empty()
    } else {
        seq![read_text(rest)]
    }
}

/// The lines of a stream of bytes.
pub open spec fn byte_lines(bytes: Seq<u8>) -> Seq<Seq<char>> {
    let (ended, rest) = lines_from(Seq::empty(), bytes);
    ended + last_line(rest)
}

/// How a stream of bytes is cut into two pieces makes no difference to its lines, wherever the cut
/// falls: those of the first piece come first, and what it leaves goes on in the second piece.
pub proof fn law_byte_lines_of_pieces(rest: Seq<u8>, first: Seq<u8>, second: Seq<u8>)
    ensures
        ({
            let (before, middle) = lines_from(rest, first);
            let (after, last) = lines_from(middle, second);
            lines_from(rest, first + second) == (before + after, last)
        }),
    decreases second.len(),
{
    let (before, middle) = lines_from(rest, first);
    if second.len() == 0 {
        assert(first + second =~= first);
        assert(before + Seq::<Seq<char>>::empty() =~= before);
    } else {
        law_byte_lines_of_pieces(rest, first, second.drop_last());
        let whole = first + second;
        assert(whole.drop_last() =~= first + second.drop_last());
        assert(whole.last() == second.last());
        let (after, open) = lines_from(middle, second.drop_last());
        let line = without_return(read_text(open));
        assert((before + after).push(line) =~= before + after.push(line));
    }
}

/// Bytes without a line feed go on the line that has not ended.
proof fn lemma_no_line_ends(rest: Seq<u8>, bytes: Seq<u8>)
    requires
        forall|i: int| 0 <= i < bytes.len() ==> (#[trigger] bytes[i]) != 10,
    ensures
        lines_from(rest, bytes) == (Seq::<Seq<char>>::empty(), rest + bytes),
    decreases bytes.len(),
{
    if bytes.len() == 0 {
        assert(rest + bytes =~= rest);
    } else {
        let front = bytes.drop_last();
        assert forall|i: int| 0 <= i < front.len() implies (#[trigger] front[i]) != 10 by {
            assert(front[i] == bytes[i]);
        }
        lemma_no_line_ends(rest, front);
        assert(bytes[bytes.len() - 1] != 10);
        assert((rest + front).push(bytes.last()) =~= rest + bytes);
    }
}

/// What two runs of valid UTF-8 encode, one after the other.
proof fn lemma_decode_concat(first: Seq<u8>, second: Seq<u8>)
    requires
        valid_utf8(first),
        valid_utf8(second),
    ensures
        valid_utf8(first + second),
        decode_utf8(first + second) == decode_utf8(first) + decode_utf8(second),
    decreases first.len(),
{
    let whole = first + second;
    if first.len() == 0 {
        assert(whole =~= second);
        assert(decode_utf8(first) + decode_utf8(second) =~= decode_utf8(second));
    } else {
        let tail = pop_first_scalar(first);
        lemma_decode_concat(tail, second);
        valid_utf8_concat(first, second);
        assert(length_of_first_scalar(whole) == length_of_first_scalar(first));
        assert(decode_first_scalar(whole) == decode_first_scalar(first));
        assert(pop_first_scalar(whole) =~= tail + second);
        assert(decode_utf8(whole) =~= decode_utf8(first) + decode_utf8(second));
    }
}

/// The first character of valid UTF-8 is a line feed exactly where its first byte is one, and
/// otherwise no byte of it is.
proof fn lemma_first_scalar_feed(bytes: Seq<u8>)
    requires
        valid_utf8(bytes),
        bytes.len() > 0,
    ensures
        (decode_first_scalar(bytes) as char == '\n') == (bytes[0] == 10),
        bytes[0] == 10 ==> take_first_scalar(bytes) == seq![10u8],
        bytes[0] != 10 ==> forall|i: int|
            0 <= i < take_first_scalar(bytes).len() ==> (#[trigger] take_first_scalar(bytes)[i])
                != 10,
        valid_utf8(take_first_scalar(bytes)),
        decode_utf8(take_first_scalar(bytes)) == seq![decode_first_scalar(bytes) as char],
{
    let b = bytes[0];
    assert(b <= 0x7f ==> (b & 0x7f) == b) by (bit_vector);
    let head = take_first_scalar(bytes);
    if b == 10 {
        assert(head =~= seq![10u8]);
    }
    assert(forall|i: int| 0 <= i < head.len() ==> (#[trigger] head[i]) == bytes[i]);
    assert(head[0] == b);
    reveal_with_fuel(valid_utf8, 2);
    reveal_with_fuel(decode_utf8, 2);
    assert(length_of_first_scalar(head) == length_of_first_scalar(bytes));
    assert(decode_first_scalar(head) == decode_first_scalar(bytes));
    assert(pop_first_scalar(head) =~= Seq::<u8>::empty());
    assert(valid_utf8(head));
    assert(decode_utf8(head) =~= seq![decode_first_scalar(bytes) as char]);
    decode_utf8_first_scalar(bytes);
    assert(leading_byte_width_1(10) == 10) by (bit_vector);
}

/// A text that holds no line feed is one line, unless it is empty.
pub(crate) proof fn lemma_one_line(line: Seq<char>)
    requires
        forall|i: int| 0 <= i < line.len() ==> (#[trigger] line[i]) != '\n',
    ensures
        text_lines(line) == (if line.len() == 0 {
            Seq::<Seq<char>>::empty()
        } else {
            seq![line]
        }),
{
    let feed = seq!['\n'];
    lemma_first_at(line, feed, 0);
    match first_at(line, feed, 0) {
        Some(i) => {
            assert(line.subrange(i, i + 1)[0] == line[i]);
        },
        None => {},
    }
}

/// The first line feed of a text is the one that has none before it.
pub(crate) proof fn lemma_first_feed(text: Seq<char>, n: int)
    requires
        0 <= n < text.len(),
        text[n] == '\n',
        forall|i: int| 0 <= i < n ==> (#[trigger] text[i]) != '\n',
    ensures
        first_at(text, seq!['\n'], 0) == Some(n),
{
    let feed = seq!['\n'];
    lemma_first_at(text, feed, 0);
    assert(text.subrange(n, n + 1) =~= feed);
    assert(occurs_at(text, feed, n));
    match first_at(text, feed, 0) {
        Some(i) => {
            assert(text.subrange(i, i + 1)[0] == text[i]);
        },
        None => {},
    }
}

/// A line that holds no line feed, a line feed and a text: the lines are the line and those of the
/// text.
pub(crate) proof fn lemma_line_and_text(line: Seq<char>, text: Seq<char>)
    requires
        forall|i: int| 0 <= i < line.len() ==> (#[trigger] line[i]) != '\n',
    ensures
        text_lines(line + (seq!['\n'] + text)) == seq![without_return(line)] + text_lines(text),
{
    let whole = line + (seq!['\n'] + text);
    let n = line.len() as int;
    lemma_first_feed(whole, n);
    assert(whole.take(n) =~= line);
    assert(whole.skip(n + 1) =~= text);
}

/// The lines of valid UTF-8 that goes on a line, which holds no line feed.
proof fn lemma_lines_of_text(rest: Seq<u8>, bytes: Seq<u8>)
    requires
        valid_utf8(rest),
        valid_utf8(bytes),
        forall|i: int|
            0 <= i < decode_utf8(rest).len() ==> (#[trigger] decode_utf8(rest)[i]) != '\n',
    ensures
        ({
            let (ended, open) = lines_from(rest, bytes);
            ended + last_line(open) == text_lines(decode_utf8(rest) + decode_utf8(bytes))
        }),
    decreases bytes.len(),
{
    let line = decode_utf8(rest);
    let none = Seq::<Seq<char>>::empty();
    if bytes.len() == 0 {
        assert(line + decode_utf8(bytes) =~= line);
        lemma_one_line(line);
        assert(none + last_line(rest) =~= last_line(rest));
    } else {
        let head = take_first_scalar(bytes);
        let tail = pop_first_scalar(bytes);
        let c = decode_first_scalar(bytes) as char;
        lemma_first_scalar_feed(bytes);
        assert(head + tail =~= bytes);
        assert(decode_utf8(bytes) == seq![c] + decode_utf8(tail));
        law_byte_lines_of_pieces(rest, head, tail);
        if bytes[0] == 10 {
            let nothing = Seq::<u8>::empty();
            lemma_lines_of_text(nothing, tail);
            lemma_line_and_text(line, decode_utf8(tail));
            assert(head.drop_last() =~= nothing);
            assert(lines_from(rest, nothing) == (none, rest));
            let ended = seq![without_return(line)];
            assert(none.push(without_return(line)) =~= ended);
            assert(lines_from(rest, head) == (ended, nothing));
            assert(decode_utf8(nothing) + decode_utf8(tail) =~= decode_utf8(tail));
            let (after, open) = lines_from(nothing, tail);
            assert((ended + after) + last_line(open) =~= ended + (after + last_line(open)));
        } else {
            lemma_no_line_ends(rest, head);
            lemma_decode_concat(rest, head);
            let longer = decode_utf8(rest + head);
            assert forall|i: int| 0 <= i < longer.len() implies (#[trigger] longer[i]) != '\n' by {
                if i < line.len() {
                    assert(longer[i] == line[i]);
                }
            }
            lemma_lines_of_text(rest + head, tail);
            assert(longer + decode_utf8(tail) =~= line + decode_utf8(bytes));
            let (after, open) = lines_from(rest + head, tail);
            assert(none + after =~= after);
        }
    }
}

/// The lines of a stream of valid UTF-8 are those of the text that it encodes.
pub proof fn law_byte_lines_of_text(bytes: Seq<u8>)
    requires
        valid_utf8(bytes),
    ensures
        byte_lines(bytes) == text_lines(decode_utf8(bytes)),
{
    let nothing = Seq::<u8>::empty();
    lemma_lines_of_text(nothing, bytes);
    assert(decode_utf8(nothing) + decode_utf8(bytes) =~= decode_utf8(bytes));
}

/// The bytes of the line of a stream that has not ended.
#[derive(Debug, Clone, PartialEq)]
pub struct ByteLineBuffer {
    pub rest: Vec<u8>,
}

impl View for ByteLineBuffer {
    type V = Seq<u8>;

    open spec fn view(&self) -> Seq<u8> {
        self.rest@
    }
}

impl ByteLineBuffer {
    /// The buffer at the start of a stream.
    pub fn new() -> (r: ByteLineBuffer)
        ensures
            r@ == Seq::<u8>::empty(),
    {
        ByteLineBuffer { rest: Vec::new() }
    }

    /// Takes bytes from the stream. Returns the lines that end in them.
    pub fn feed(&mut self, bytes: &[u8]) -> (r: Vec<String>)
        ensures
            (r.deep_view(), final(self)@) == lines_from(old(self)@, bytes@),
    {
        let mut out: Vec<String> = Vec::new();
        let mut i: usize = 0;
        assert(out.deep_view() =~= Seq::<Seq<char>>::empty());
        while i < bytes.len()
            invariant
                i <= bytes.len(),
                (out.deep_view(), self@) == lines_from(old(self)@, bytes@.take(i as int)),
            decreases bytes.len() - i,
        {
            let ghost before = out.deep_view();
            assert(bytes@.take(i + 1).drop_last() =~= bytes@.take(i as int));
            if bytes[i] == 10 {
                let text = lossy_text(self.rest.as_slice());
                out.push(strip_return(text.as_str()).to_owned());
                assert(out.deep_view() =~= before.push(without_return(text@)));
                self.rest = Vec::new();
            } else {
                self.rest.push(bytes[i]);
            }
            i += 1;
        }
        assert(bytes@.take(i as int) =~= bytes@);
        out
    }

    /// Takes the end of the stream. Returns the last line where it lacks its end.
    pub fn finish(&mut self) -> (r: Vec<String>)
        ensures
            r.deep_view() == last_line(old(self)@),
            final(self)@ == Seq::<u8>::empty(),
    {
        let mut out: Vec<String> = Vec::new();
        if self.rest.len() > 0 {
            out.push(lossy_text(self.rest.as_slice()));
        }
        assert(out.deep_view() =~= last_line(old(self)@));
        self.rest = Vec::new();
        out
    }
}

} // verus!
