//! How text is cut, trimmed and put together.

use vstd::prelude::*;
use vstd::utf8::{decode_utf8, valid_utf8};

use crate::gateway::thinking_split;
use crate::json::{
    array_of, field, put_some, str_field, str_field_or, str_of, strings, uint_field, uint_of,
    JsonView, NumberView,
};
use crate::router::sse::{
    byte_lines, chunk_text, ended_lines, last_line, lemma_first_feed, lemma_line_and_text,
    lemma_one_line, lines_from, lossy_utf8, open_line, read_text,
};
use crate::text::{
    after_prefix, decimal, digit, first_at, has_prefix, is_white, joined, lemma_first_at, occurs_at,
    text_lines, trimmed, trimmed_end, trimmed_start, without_leading, without_return,
    without_trailing,
};

verus! {

/// White space at the start of a text.
proof fn lemma_trimmed_start(s: Seq<char>) -> (k: int)
    ensures
        0 <= k <= s.len(),
        trimmed_start(s) == s.skip(k),
        forall|i: int| 0 <= i < k ==> is_white(#[trigger] s[i]),
        k < s.len() ==> !is_white(s[k]),
    decreases s.len(),
{
    if s.len() > 0 && is_white(s.first()) {
        let rest = s.drop_first();
        let k = lemma_trimmed_start(rest);
        assert(rest.skip(k) =~= s.skip(k + 1));
        assert forall|i: int| 0 <= i < k + 1 implies is_white(#[trigger] s[i]) by {
            if i > 0 {
                assert(rest[i - 1] == s[i]);
            }
        }
        k + 1
    } else {
        assert(s.skip(0) =~= s);
        0
    }
}

/// White space at the end of a text.
proof fn lemma_trimmed_end(s: Seq<char>) -> (n: int)
    ensures
        0 <= n <= s.len(),
        trimmed_end(s) == s.take(n),
        forall|i: int| n <= i < s.len() ==> is_white(#[trigger] s[i]),
        n > 0 ==> !is_white(s[n - 1]),
    decreases s.len(),
{
    if s.len() > 0 && is_white(s.last()) {
        let front = s.drop_last();
        let n = lemma_trimmed_end(front);
        assert(front.take(n) =~= s.take(n));
        assert forall|i: int| n <= i < s.len() implies is_white(#[trigger] s[i]) by {
            if i < front.len() {
                assert(front[i] == s[i]);
            }
        }
        n
    } else {
        assert(s.take(s.len() as int) =~= s);
        s.len() as int
    }
}

/// Trimming takes white space off both ends of a text, and nothing else: what is left stands in the
/// text, is surrounded by nothing but white space, and neither starts nor ends with any.
pub proof fn law_trimmed(s: Seq<char>)
    ensures
        ({
            let t = trimmed(s);
            &&& t.len() > 0 ==> !is_white(t.first()) && !is_white(t.last())
            &&& exists|from: int|
                0 <= from <= from + t.len() <= s.len() && t == #[trigger] s.subrange(
                    from,
                    from + t.len(),
                ) && (forall|i: int|
                    0 <= i < from || from + t.len() <= i < s.len() ==> is_white(#[trigger] s[i]))
        }),
{
    let k = lemma_trimmed_start(s);
    let rest = trimmed_start(s);
    let n = lemma_trimmed_end(rest);
    let t = trimmed(s);
    assert(t =~= s.subrange(k, k + n));
    assert forall|i: int| 0 <= i < k || k + t.len() <= i < s.len() implies is_white(
        #[trigger] s[i],
    ) by {
        if i >= k {
            assert(rest[i - k] == s[i]);
        }
    }
    if t.len() > 0 {
        assert(t.first() == s[k]);
        assert(t.last() == rest[n - 1]);
    }
}

/// The characters that are white space.
pub proof fn law_white_space(c: char)
    ensures
        is_white(c) <==> seq![
            0x9u32,
            0xa,
            0xb,
            0xc,
            0xd,
            0x20,
            0x85,
            0xa0,
            0x1680,
            0x2000,
            0x2001,
            0x2002,
            0x2003,
            0x2004,
            0x2005,
            0x2006,
            0x2007,
            0x2008,
            0x2009,
            0x200a,
            0x2028,
            0x2029,
            0x202f,
            0x205f,
            0x3000,
        ].contains(c as u32),
{
    let u = c as u32;
    let all = seq![
        0x9u32,
        0xa,
        0xb,
        0xc,
        0xd,
        0x20,
        0x85,
        0xa0,
        0x1680,
        0x2000,
        0x2001,
        0x2002,
        0x2003,
        0x2004,
        0x2005,
        0x2006,
        0x2007,
        0x2008,
        0x2009,
        0x200a,
        0x2028,
        0x2029,
        0x202f,
        0x205f,
        0x3000,
    ];
    if is_white(c) {
        let i: int = if u <= 0xd {
            u - 9
        } else if u == 0x20 {
            5
        } else if u == 0x85 {
            6
        } else if u == 0xa0 {
            7
        } else if u == 0x1680 {
            8
        } else if u <= 0x200a {
            u - 0x2000 + 9
        } else if u == 0x2028 {
            20
        } else if u == 0x2029 {
            21
        } else if u == 0x202f {
            22
        } else if u == 0x205f {
            23
        } else {
            24
        };
        assert(all[i] == u);
    }
}

/// A text starts with another exactly where it is that one and something after it, which is what
/// taking the prefix off leaves.
pub proof fn law_prefix(s: Seq<char>, pat: Seq<char>, rest: Seq<char>)
    ensures
        after_prefix(s, pat) == Some(rest) <==> s == pat + rest,
        has_prefix(s, pat) <==> after_prefix(s, pat) is Some,
{
    if s == pat + rest {
        assert(s.subrange(0, pat.len() as int) =~= pat);
        assert(s.skip(pat.len() as int) =~= rest);
    }
    if after_prefix(s, pat) == Some(rest) {
        assert(s =~= pat + rest);
    }
}

/// Taking a prefix off as often as it stands there: once more before the text makes no difference,
/// and a text that does not start with it stays.
pub proof fn law_without_leading(s: Seq<char>, pat: Seq<char>)
    requires
        pat.len() > 0,
    ensures
        without_leading(pat + s, pat) == without_leading(s, pat),
        !has_prefix(s, pat) ==> without_leading(s, pat) == s,
{
    let whole = pat + s;
    assert(whole.subrange(0, pat.len() as int) =~= pat);
    assert(whole.skip(pat.len() as int) =~= s);
}

/// Taking a character off the end as often as it stands there: once more after the text makes no
/// difference, and a text that does not end with it stays.
pub proof fn law_without_trailing(s: Seq<char>, c: char)
    ensures
        without_trailing(s.push(c), c) == without_trailing(s, c),
        s.len() == 0 || s.last() != c ==> without_trailing(s, c) == s,
{
    assert(s.push(c).drop_last() =~= s);
}

/// The lines of a text: a line, its end and a text after it are that line and the lines of the text;
/// the line is told without a carriage return before its end. A text without a line feed is one line,
/// and an empty text none.
pub proof fn law_lines(line: Seq<char>, rest: Seq<char>)
    requires
        forall|i: int| 0 <= i < line.len() ==> (#[trigger] line[i]) != '\n',
    ensures
        line.len() == 0 ==> text_lines(line).len() == 0,
        line.len() > 0 ==> text_lines(line) == seq![line],
        line.len() == 0 || line.last() != '\r' ==> text_lines(line + (seq!['\n'] + rest)) == seq![
            line,
        ] + text_lines(rest),
        text_lines(line.push('\r') + (seq!['\n'] + rest)) == seq![line] + text_lines(rest),
{
    lemma_one_line(line);
    lemma_line_and_text(line, rest);
    let longer = line.push('\r');
    assert forall|i: int| 0 <= i < longer.len() implies (#[trigger] longer[i]) != '\n' by {
        if i < line.len() {
            assert(longer[i] == line[i]);
        }
    }
    lemma_line_and_text(longer, rest);
    assert(longer.drop_last() =~= line);
}

/// The lines of a text that have ended, and the open one: a line, its end and a text after it are
/// that line, as it is, and the lines of the text. A text without a line feed is open.
pub proof fn law_ended_lines(line: Seq<char>, rest: Seq<char>)
    requires
        forall|i: int| 0 <= i < line.len() ==> (#[trigger] line[i]) != '\n',
    ensures
        ended_lines(line).len() == 0,
        open_line(line) == line,
        ended_lines(line + (seq!['\n'] + rest)) == seq![line] + ended_lines(rest),
        open_line(line + (seq!['\n'] + rest)) == open_line(rest),
{
    let feed = seq!['\n'];
    lemma_first_at(line, feed, 0);
    match first_at(line, feed, 0) {
        Some(i) => {
            assert(line.subrange(i, i + 1)[0] == line[i]);
        },
        None => {},
    }
    let whole = line + (feed + rest);
    let n = line.len() as int;
    lemma_first_feed(whole, n);
    assert(whole.take(n) =~= line);
    assert(whole.skip(n + 1) =~= rest);
}

/// The lines of a stream of bytes: a line feed ends the line, which is told as text without a
/// carriage return before it, and any other byte goes on it. What is left at the end is the last
/// line.
pub proof fn law_byte_by_byte(rest: Seq<u8>, byte: u8)
    ensures
        lines_from(rest, Seq::empty()) == (Seq::<Seq<char>>::empty(), rest),
        byte != 10 ==> lines_from(rest, seq![byte]) == (
            Seq::<Seq<char>>::empty(),
            rest.push(byte),
        ),
        ({
            let text = read_text(rest);
            let line = if text.len() > 0 && text.last() == '\r' {
                text.drop_last()
            } else {
                text
            };
            lines_from(rest, seq![10u8]) == (seq![line], Seq::<u8>::empty())
        }),
        rest.len() == 0 ==> last_line(rest).len() == 0,
        rest.len() > 0 ==> last_line(rest) == seq![read_text(rest)],
        byte_lines(rest) == lines_from(Seq::empty(), rest).0 + last_line(
            lines_from(Seq::empty(), rest).1,
        ),
{
    reveal_with_fuel(lines_from, 2);
    assert(seq![byte].drop_last() =~= Seq::<u8>::empty());
    assert(seq![10u8].drop_last() =~= Seq::<u8>::empty());
    let line = without_return(read_text(rest));
    assert(Seq::<Seq<char>>::empty().push(line) =~= seq![line]);
}

/// Bytes are read as the text that they encode where they are valid UTF-8. Where they are not, a
/// line of them is read with what stands for them, and a chunk of them adds nothing.
pub proof fn law_bytes_are_read(bytes: Seq<u8>)
    ensures
        valid_utf8(bytes) ==> read_text(bytes) == decode_utf8(bytes) && chunk_text(bytes)
            == decode_utf8(bytes),
        !valid_utf8(bytes) ==> read_text(bytes) == lossy_utf8(bytes) && chunk_text(bytes).len()
            == 0,
{
}

/// Parts are put together in order, with the separator between each two and nowhere else.
pub proof fn law_joined(parts: Seq<Seq<char>>, part: Seq<char>, sep: Seq<char>)
    ensures
        joined(Seq::empty(), sep).len() == 0,
        joined(seq![part], sep) == part,
        parts.len() > 0 ==> joined(parts.push(part), sep) == joined(parts, sep) + sep + part,
{
    assert(parts.push(part).drop_last() =~= parts);
}

/// The number that decimal digits tell.
pub open spec fn told_number(digits: Seq<char>) -> int
    decreases digits.len(),
{
    if digits.len() == 0 {
        0
    } else {
        told_number(digits.drop_last()) * 10 + (digits.last() as int - '0' as int)
    }
}

/// A digit.
proof fn lemma_digit(n: nat)
    requires
        n < 10,
    ensures
        digit(n).len() == 1,
        digit(n)[0] as int == '0' as int + n,
{
    reveal_strlit("0");
    reveal_strlit("1");
    reveal_strlit("2");
    reveal_strlit("3");
    reveal_strlit("4");
    reveal_strlit("5");
    reveal_strlit("6");
    reveal_strlit("7");
    reveal_strlit("8");
    reveal_strlit("9");
}

/// The decimal notation of a number tells that number, in digits, the first of which is no zero but
/// for zero itself.
pub proof fn law_decimal(n: nat)
    ensures
        told_number(decimal(n)) == n,
        decimal(n).len() > 0,
        n > 0 ==> decimal(n)[0] != '0',
        n < 10 ==> decimal(n).len() == 1,
        forall|i: int| 0 <= i < decimal(n).len() ==> '0' <= #[trigger] decimal(n)[i] <= '9',
    decreases n,
{
    if n < 10 {
        lemma_digit(n);
        reveal_with_fuel(told_number, 2);
        assert(decimal(n).drop_last() =~= Seq::<char>::empty());
    } else {
        law_decimal(n / 10);
        lemma_digit(n % 10);
        let front = decimal(n / 10);
        let whole = decimal(n);
        assert(whole.drop_last() =~= front);
        assert(whole.last() == digit(n % 10)[0]);
        assert forall|i: int| 0 <= i < whole.len() implies '0' <= #[trigger] whole[i] <= '9' by {
            if i < front.len() {
                assert(whole[i] == front[i]);
            }
        }
        assert(whole[0] == front[0]);
    }
}

/// A text with a `<think>` block is split, wherever the block stands: the reasoning is what stands in
/// it, and what is left is what stands before and after it, both without white space around them. A
/// text without such a block, or whose block is not ended, stays as it is.
pub proof fn law_thinking_split(
    text: Seq<char>,
    before: Seq<char>,
    reasoning: Seq<char>,
    after: Seq<char>,
)
    ensures
        ({
            let t = trimmed(text);
            let open = "<think>"@;
            let close = "</think>"@;
            &&& first_at(t, open, 0) is None ==> thinking_split(text) == (text, None::<Seq<char>>)
            &&& first_at(t, close, 0) is None ==> thinking_split(text) == (text, None::<Seq<char>>)
            &&& t == before + open + reasoning + close + after && first_at(t, open, 0) == Some(
                before.len() as int,
            ) && first_at(t, close, before.len() as int) == Some(
                (before.len() + open.len() + reasoning.len()) as int,
            ) ==> thinking_split(text) == (trimmed(before + after), Some(trimmed(reasoning)))
        }),
{
    let t = trimmed(text);
    let open = "<think>"@;
    let close = "</think>"@;
    let end = (before.len() + open.len() + reasoning.len()) as int;
    if t == before + open + reasoning + close + after {
        assert(t.take(before.len() as int) =~= before);
        assert(t.skip(end + close.len()) =~= after);
        assert(t.subrange((before.len() + open.len()) as int, end) =~= reasoning);
    }
    if first_at(t, close, 0) is None {
        lemma_first_at(t, close, 0);
        match first_at(t, open, 0) {
            Some(start) => {
                lemma_first_at(t, open, 0);
                lemma_first_at(t, close, start);
                match first_at(t, close, start) {
                    Some(k) => {
                        assert(!occurs_at(t, close, k));
                    },
                    None => {},
                }
            },
            None => {},
        }
    }
}

/// The first place of a pattern is one where it stands, and it stands at none before it.
pub proof fn law_first_place(s: Seq<char>, pat: Seq<char>, from: int, i: int)
    requires
        0 <= from <= i,
        i + pat.len() <= s.len(),
        s.subrange(i, i + pat.len()) == pat,
    ensures
        first_at(s, pat, from) matches Some(k) && from <= k <= i && s.subrange(k, k + pat.len())
            == pat,
{
    lemma_first_at(s, pat, from);
    assert(occurs_at(s, pat, i));
}

/// What is read of a JSON value: the member under a key of an object, texts of strings, items of
/// arrays and unsigned integers of numbers that hold one. Setting a member sets that one alone.
pub proof fn law_json_members(
    m: Map<Seq<char>, JsonView>,
    key: Seq<char>,
    other: Seq<char>,
    value: JsonView,
    s: Seq<char>,
    n: int,
)
    ensures
        field(JsonView::Object(m.insert(key, value)), key) == Some(value),
        !m.contains_key(key) ==> field(JsonView::Object(m), key) is None,
        !(value is Object) ==> field(value, key) is None,
        field(put_some(JsonView::Object(m), key, Some(value)), key) == Some(value),
        other != key ==> field(put_some(JsonView::Object(m), key, Some(value)), other) == field(
            JsonView::Object(m),
            other,
        ),
        put_some(JsonView::Object(m), key, None) == JsonView::Object(m),
        str_field(JsonView::Object(m.insert(key, JsonView::Str(s))), key) == Some(s),
        !(value is Str) ==> str_field(JsonView::Object(m.insert(key, value)), key) is None,
        !m.contains_key(key) ==> str_field_or(JsonView::Object(m), key, s) == s,
        str_of(JsonView::Str(s)) == Some(s),
        value is Array ==> array_of(value) == Some(value->Array_0),
        !(value is Array) ==> array_of(value) is None,
        0 <= n <= u64::MAX ==> uint_field(
            JsonView::Object(m.insert(key, JsonView::Number(NumberView::Int(n)))),
            key,
        ) == Some(n as u64),
        !(0 <= n <= u64::MAX) ==> uint_of(JsonView::Number(NumberView::Int(n))) is None,
        uint_of(JsonView::Number(NumberView::Float(s))) is None,
        !(value is Number) ==> uint_of(value) is None,
        strings(seq![s]) =~= seq![JsonView::Str(s)],
{
}

} // verus!
