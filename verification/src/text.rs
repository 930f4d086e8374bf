//! Text: trimming, searching, splitting and joining, with their meaning over sequences of
//! characters.

use vstd::prelude::*;

verus! {

/// Whether a character has the Unicode property `White_Space`.
pub open spec fn is_white(c: char) -> bool {
    let u = c as u32;
    ||| 0x9 <= u <= 0xd
    ||| u == 0x20
    ||| u == 0x85
    ||| u == 0xa0
    ||| u == 0x1680
    ||| 0x2000 <= u <= 0x200a
    ||| u == 0x2028
    ||| u == 0x2029
    ||| u == 0x202f
    ||| u == 0x205f
    ||| u == 0x3000
}

/// The text without the white space that it starts with.
pub open spec fn trimmed_start(s: Seq<char>) -> Seq<char>
    decreases s.len(),
{
    if s.len() > 0 && is_white(s.first()) {
        trimmed_start(s.drop_first())
    } else {
        s
    }
}

/// The text without the white space that it ends with.
pub open spec fn trimmed_end(s: Seq<char>) -> Seq<char>
    decreases s.len(),
{
    if s.len() > 0 && is_white(s.last()) {
        trimmed_end(s.drop_last())
    } else {
        s
    }
}

/// The text without white space at either end.
pub open spec fn trimmed(s: Seq<char>) -> Seq<char> {
    trimmed_end(trimmed_start(s))
}

/// Whether `pat` stands in `s` at position `i`.
pub open spec fn occurs_at(s: Seq<char>, pat: Seq<char>, i: int) -> bool {
    &&& 0 <= i
    &&& i + pat.len() <= s.len()
    &&& s.subrange(i, i + pat.len()) == pat
}

/// The first position, from `from` on, at which `pat` stands in `s`.
pub open spec fn first_at(s: Seq<char>, pat: Seq<char>, from: int) -> Option<int>
    decreases s.len() - from + 1,
{
    if from < 0 || from + pat.len() > s.len() {
        None
    } else if occurs_at(s, pat, from) {
        Some(from)
    } else {
        first_at(s, pat, from + 1)
    }
}

/// Whether `s` starts with `pat`.
pub open spec fn has_prefix(s: Seq<char>, pat: Seq<char>) -> bool {
    occurs_at(s, pat, 0)
}

/// What follows the prefix `pat` of `s`, where `s` starts with it.
pub open spec fn after_prefix(s: Seq<char>, pat: Seq<char>) -> Option<Seq<char>> {
    if has_prefix(s, pat) {
        Some(s.skip(pat.len() as int))
    } else {
        None
    }
}

/// The text without the prefix `pat`, taken away as often as it stands there.
pub open spec fn without_leading(s: Seq<char>, pat: Seq<char>) -> Seq<char>
    decreases s.len(),
{
    if pat.len() > 0 && has_prefix(s, pat) {
        without_leading(s.skip(pat.len() as int), pat)
    } else {
        s
    }
}

/// The text without the characters `c` that it ends with.
pub open spec fn without_trailing(s: Seq<char>, c: char) -> Seq<char>
    decreases s.len(),
{
    if s.len() > 0 && s.last() == c {
        without_trailing(s.drop_last(), c)
    } else {
        s
    }
}

/// A line without the carriage return before its line feed.
pub open spec fn without_return(line: Seq<char>) -> Seq<char> {
    if line.len() > 0 && line.last() == '\r' {
        line.drop_last()
    } else {
        line
    }
}

/// The lines of a text. A line ends with a line feed or with a carriage return and a line feed;
/// the last one may lack its end, and keeps a carriage return then.
pub open spec fn text_lines(s: Seq<char>) -> Seq<Seq<char>>
    decreases s.len(),
{
    if s.len() == 0 {
        Seq::empty()
    } else {
        match first_at(s, seq!['\n'], 0) {
            None => seq![s],
            Some(i) => if 0 <= i < s.len() {
                seq![without_return(s.take(i))] + text_lines(s.skip(i + 1))
            } else {
                Seq::empty()
            },
        }
    }
}

/// The parts in order, with `sep` between each two.
pub open spec fn joined(parts: Seq<Seq<char>>, sep: Seq<char>) -> Seq<char>
    decreases parts.len(),
{
    if parts.len() == 0 {
        Seq::empty()
    } else if parts.len() == 1 {
        parts[0]
    } else {
        joined(parts.drop_last(), sep) + sep + parts.last()
    }
}

/// The decimal digit of a number below ten.
pub open spec fn digit(n: nat) -> Seq<char> {
    if n == 0 {
        "0"@
    } else if n == 1 {
        "1"@
    } else if n == 2 {
        "2"@
    } else if n == 3 {
        "3"@
    } else if n == 4 {
        "4"@
    } else if n == 5 {
        "5"@
    } else if n == 6 {
        "6"@
    } else if n == 7 {
        "7"@
    } else if n == 8 {
        "8"@
    } else {
        "9"@
    }
}

/// The decimal notation of a number.
pub open spec fn decimal(n: nat) -> Seq<char>
    decreases n,
{
    if n < 10 {
        digit(n)
    } else {
        decimal(n / 10) + digit(n % 10)
    }
}

/// A position that `first_at` gives is one where the pattern stands.
pub proof fn lemma_first_at(s: Seq<char>, pat: Seq<char>, from: int)
    ensures
        first_at(s, pat, from) matches Some(i) ==> from <= i && occurs_at(s, pat, i),
        first_at(s, pat, from) matches Some(i) ==> forall|k: int|
            from <= k < i ==> !occurs_at(s, pat, k),
        first_at(s, pat, from) is None && 0 <= from ==> forall|k: int|
            from <= k ==> !occurs_at(s, pat, k),
    decreases s.len() - from + 1,
{
    if from < 0 || from + pat.len() > s.len() {
    } else if occurs_at(s, pat, from) {
    } else {
        lemma_first_at(s, pat, from + 1);
    }
}

/// White space before one more character.
proof fn lemma_trimmed_start_push(s: Seq<char>, c: char)
    ensures
        trimmed_start(s.push(c)) == (if trimmed_start(s).len() > 0 {
            trimmed_start(s).push(c)
        } else if is_white(c) {
            Seq::empty()
        } else {
            seq![c]
        }),
    decreases s.len(),
{
    let longer = s.push(c);
    if s.len() == 0 {
        reveal_with_fuel(trimmed_start, 2);
        assert(longer.drop_first() =~= Seq::<char>::empty());
        assert(longer =~= seq![c]);
    } else if is_white(s.first()) {
        assert(longer.drop_first() =~= s.drop_first().push(c));
        lemma_trimmed_start_push(s.drop_first(), c);
    }
}

/// White space at the end of a text makes no difference to the text without white space at
/// either end.
pub proof fn lemma_trimmed_of_trimmed_end(s: Seq<char>)
    ensures
        trimmed(trimmed_end(s)) == trimmed(s),
    decreases s.len(),
{
    if s.len() > 0 && is_white(s.last()) {
        let front = s.drop_last();
        lemma_trimmed_of_trimmed_end(front);
        lemma_trimmed_start_push(front, s.last());
        assert(s =~= front.push(s.last()));
        let kept = trimmed_start(front);
        if kept.len() > 0 {
            assert(kept.push(s.last()).drop_last() =~= kept);
        }
    }
}

/// Only what follows the last character that is no white space is trimmed from the end.
pub proof fn lemma_trimmed_end_after(s: Seq<char>, rest: Seq<char>)
    requires
        s.len() > 0,
        !is_white(s.last()),
    ensures
        trimmed_end(s + rest) == s + trimmed_end(rest),
    decreases rest.len(),
{
    let whole = s + rest;
    if rest.len() == 0 {
        assert(whole =~= s);
        assert(s + trimmed_end(rest) =~= s);
    } else {
        assert(whole.last() == rest.last());
        if is_white(rest.last()) {
            assert(whole.drop_last() =~= s + rest.drop_last());
            lemma_trimmed_end_after(s, rest.drop_last());
        }
    }
}

/// Whether the two texts are the same.
pub fn same_text(a: &str, b: &str) -> (r: bool)
    ensures
        r == (a@ == b@),
{
    a.to_owned() == b.to_owned()
}

/// The characters of a text.
pub fn chars_of(s: &str) -> (r: Vec<char>)
    ensures
        r@ == s@,
{
    let mut out: Vec<char> = Vec::new();
    for c in it: s.chars()
        invariant
            it.seq() == s@,
            out@ == s@.take(it.index() as int),
    {
        out.push(c);
        assert(out@ =~= s@.take(it.index() as int + 1));
    }
    assert(s@.take(s@.len() as int) =~= s@);
    out
}

/// Whether a character is white space.
pub fn white(c: char) -> (r: bool)
    ensures
        r == is_white(c),
{
    let u: u32 = c as u32;
    (0x9 <= u && u <= 0xd) || u == 0x20 || u == 0x85 || u == 0xa0 || u == 0x1680 || (0x2000 <= u
        && u <= 0x200a) || u == 0x2028 || u == 0x2029 || u == 0x202f || u == 0x205f || u == 0x3000
}

/// The text without white space at either end.
pub fn trim(s: &str) -> (r: &str)
    ensures
        r@ == trimmed(s@),
{
    let chars = chars_of(s);
    let mut from: usize = 0;
    assert(s@.skip(0) =~= s@);
    while from < chars.len() && white(chars[from])
        invariant
            chars@ == s@,
            from <= chars.len(),
            trimmed_start(s@) == trimmed_start(s@.skip(from as int)),
        decreases chars.len() - from,
    {
        assert(s@.skip(from as int).drop_first() =~= s@.skip(from + 1));
        from += 1;
    }
    let ghost rest = s@.skip(from as int);
    assert(trimmed_start(s@) == rest);
    let mut to: usize = chars.len();
    assert(rest.take(to - from) =~= rest);
    while to > from && white(chars[to - 1])
        invariant
            chars@ == s@,
            from <= to <= chars.len(),
            rest == s@.skip(from as int),
            trimmed_end(rest) == trimmed_end(rest.take(to - from)),
        decreases to,
    {
        assert(rest.take(to - from).drop_last() =~= rest.take(to - from - 1));
        assert(rest.take(to - from).last() == s@[to - 1]);
        to -= 1;
    }
    if to > from {
        assert(rest.take(to - from).last() == s@[to - 1]);
    }
    assert(rest.take(to - from) =~= s@.subrange(from as int, to as int));
    s.substring_char(from, to)
}

/// Whether `pat` stands in `s` at position `i`.
fn stands_at(s: &Vec<char>, pat: &Vec<char>, i: usize) -> (r: bool)
    requires
        i + pat.len() <= s.len(),
    ensures
        r == occurs_at(s@, pat@, i as int),
{
    let mut k: usize = 0;
    while k < pat.len()
        invariant
            i + pat.len() <= s.len(),
            k <= pat.len(),
            forall|j: int| 0 <= j < k ==> #[trigger] pat@[j] == s@[i + j],
        decreases pat.len() - k,
    {
        if s[i + k] != pat[k] {
            assert(s@.subrange(i as int, i + pat.len())[k as int] != pat@[k as int]);
            return false;
        }
        k += 1;
    }
    assert(s@.subrange(i as int, i + pat.len()) =~= pat@);
    true
}

/// The first position, from `from` on, at which `pat` stands in `s`.
pub fn find_from(s: &Vec<char>, pat: &Vec<char>, from: usize) -> (r: Option<usize>)
    ensures
        match r {
            Some(i) => first_at(s@, pat@, from as int) == Some(i as int),
            None => first_at(s@, pat@, from as int) is None,
        },
{
    if pat.len() > s.len() {
        return None;
    }
    let mut i: usize = from;
    while i <= s.len() - pat.len()
        invariant
            pat.len() <= s.len(),
            first_at(s@, pat@, from as int) == first_at(s@, pat@, i as int),
        decreases s.len() + 1 - i,
    {
        if stands_at(s, pat, i) {
            return Some(i);
        }
        proof {
            if pat.len() == 0 {
                assert(s@.subrange(i as int, i as int) =~= pat@);
            }
        }
        i += 1;
    }
    None
}

/// Whether `s` starts with `pat`.
pub fn starts_with(s: &str, pat: &str) -> (r: bool)
    ensures
        r == has_prefix(s@, pat@),
{
    let text = chars_of(s);
    let prefix = chars_of(pat);
    prefix.len() <= text.len() && stands_at(&text, &prefix, 0)
}

/// What follows the prefix `pat` of `s`, where `s` starts with it.
pub fn strip_prefix<'a>(s: &'a str, pat: &str) -> (r: Option<&'a str>)
    ensures
        match r {
            Some(rest) => after_prefix(s@, pat@) == Some(rest@),
            None => after_prefix(s@, pat@) is None,
        },
{
    let text = chars_of(s);
    let prefix = chars_of(pat);
    if prefix.len() <= text.len() && stands_at(&text, &prefix, 0) {
        assert(s@.subrange(pat@.len() as int, s@.len() as int) =~= s@.skip(pat@.len() as int));
        Some(s.substring_char(prefix.len(), text.len()))
    } else {
        None
    }
}

/// The text without the prefix `pat`, taken away as often as it stands there.
pub fn strip_leading<'a>(s: &'a str, pat: &str) -> (r: &'a str)
    ensures
        r@ == without_leading(s@, pat@),
{
    let text = chars_of(s);
    let prefix = chars_of(pat);
    let mut from: usize = 0;
    assert(s@.skip(0) =~= s@);
    while prefix.len() > 0 && prefix.len() <= text.len() - from && stands_at(&text, &prefix, from)
        invariant
            text@ == s@,
            prefix@ == pat@,
            from <= text.len(),
            without_leading(s@, pat@) == without_leading(s@.skip(from as int), pat@),
        decreases text.len() - from,
    {
        proof {
            let rest = s@.skip(from as int);
            assert(rest.subrange(0, pat@.len() as int) =~= s@.subrange(
                from as int,
                from + pat@.len(),
            ));
            assert(rest.skip(pat@.len() as int) =~= s@.skip(from + pat@.len()));
        }
        from += prefix.len();
    }
    proof {
        let rest = s@.skip(from as int);
        if pat@.len() > 0 && has_prefix(rest, pat@) {
            assert(rest.subrange(0, pat@.len() as int) =~= s@.subrange(
                from as int,
                from + pat@.len(),
            ));
        }
        assert(rest =~= s@.subrange(from as int, s@.len() as int));
    }
    s.substring_char(from, text.len())
}

/// The text without the characters `c` that it ends with.
pub fn strip_trailing(s: &str, c: char) -> (r: &str)
    ensures
        r@ == without_trailing(s@, c),
{
    let chars = chars_of(s);
    let mut to: usize = chars.len();
    assert(s@.take(to as int) =~= s@);
    while to > 0 && chars[to - 1] == c
        invariant
            chars@ == s@,
            to <= chars.len(),
            without_trailing(s@, c) == without_trailing(s@.take(to as int), c),
        decreases to,
    {
        assert(s@.take(to as int).drop_last() =~= s@.take(to - 1));
        to -= 1;
    }
    assert(s@.take(to as int) =~= s@.subrange(0, to as int));
    s.substring_char(0, to)
}

/// The lines of a text.
pub fn lines(s: &str) -> (r: Vec<String>)
    ensures
        r.deep_view() == text_lines(s@),
{
    let chars = chars_of(s);
    let feed: Vec<char> = vec!['\n'];
    assert(feed@ =~= seq!['\n']);
    let mut out: Vec<String> = Vec::new();
    let mut from: usize = 0;
    assert(s@.skip(0) =~= s@);
    assert(out.deep_view() + text_lines(s@.skip(0)) =~= text_lines(s@));
    while from < chars.len()
        invariant
            chars@ == s@,
            feed@ == seq!['\n'],
            from <= chars.len(),
            out.deep_view() + text_lines(s@.skip(from as int)) == text_lines(s@),
        decreases chars.len() - from,
    {
        let ghost rest = s@.skip(from as int);
        let ghost before = out.deep_view();
        let found = find_from(&chars, &feed, from);
        proof {
            lemma_first_at_skip(s@, seq!['\n'], from as int, from as int);
            lemma_first_at(s@, seq!['\n'], from as int);
        }
        match found {
            None => {
                assert(rest =~= s@.subrange(from as int, s@.len() as int));
                out.push(s.substring_char(from, chars.len()).to_owned());
                assert(out.deep_view() =~= before.push(rest));
                assert(out.deep_view() + text_lines(s@.skip(s@.len() as int)) =~= before
                    + text_lines(rest));
                from = chars.len();
            },
            Some(i) => {
                let to: usize = if i > from && chars[i - 1] == '\r' {
                    i - 1
                } else {
                    i
                };
                let ghost line = rest.take(i - from);
                proof {
                    assert(without_return(line) =~= s@.subrange(from as int, to as int));
                    assert(rest.skip(i - from + 1) =~= s@.skip(i + 1));
                }
                out.push(s.substring_char(from, to).to_owned());
                assert(out.deep_view() =~= before.push(without_return(line)));
                assert(out.deep_view() + text_lines(s@.skip(i + 1)) =~= before + text_lines(rest));
                from = i + 1;
            },
        }
    }
    assert(out.deep_view() =~= out.deep_view() + text_lines(s@.skip(from as int)));
    out
}

/// A line without the carriage return at its end.
pub fn strip_return(line: &str) -> (r: &str)
    ensures
        r@ == without_return(line@),
{
    let n: usize = line.unicode_len();
    if n > 0 && line.get_char(n - 1) == '\r' {
        line.substring_char(0, n - 1)
    } else {
        line
    }
}

/// Searching a text from a position on is searching what stands there.
pub proof fn lemma_first_at_skip(s: Seq<char>, pat: Seq<char>, base: int, from: int)
    requires
        0 <= base <= from,
        base <= s.len(),
    ensures
        first_at(s, pat, from) == (match first_at(s.skip(base), pat, from - base) {
            Some(i) => Some(i + base),
            None => None,
        }),
    decreases s.len() - from + 1,
{
    if from + pat.len() <= s.len() {
        assert(s.skip(base).subrange(from - base, from - base + pat.len()) =~= s.subrange(
            from,
            from + pat.len(),
        ));
        if !occurs_at(s, pat, from) {
            lemma_first_at_skip(s, pat, base, from + 1);
        }
    }
}

/// The parts in order, with `sep` between each two.
pub fn join(parts: &Vec<String>, sep: &str) -> (r: String)
    ensures
        r@ == joined(parts.deep_view(), sep@),
{
    let mut out = String::new();
    let mut i: usize = 0;
    assert(parts.deep_view().take(0) =~= Seq::<Seq<char>>::empty());
    while i < parts.len()
        invariant
            i <= parts.len(),
            out@ == joined(parts.deep_view().take(i as int), sep@),
        decreases parts.len() - i,
    {
        if i > 0 {
            out.append(sep);
        }
        out.append(parts[i].as_str());
        proof {
            let longer = parts.deep_view().take(i + 1);
            assert(longer.drop_last() =~= parts.deep_view().take(i as int));
            assert(longer.last() == parts@[i as int]@);
            if i == 0 {
                assert(out@ =~= parts@[0]@);
            }
        }
        i += 1;
    }
    assert(parts.deep_view().take(i as int) =~= parts.deep_view());
    out
}

/// The decimal digit of a number below ten.
fn digit_text(n: u64) -> (r: &'static str)
    requires
        n < 10,
    ensures
        r@ == digit(n as nat),
{
    if n == 0 {
        "0"
    } else if n == 1 {
        "1"
    } else if n == 2 {
        "2"
    } else if n == 3 {
        "3"
    } else if n == 4 {
        "4"
    } else if n == 5 {
        "5"
    } else if n == 6 {
        "6"
    } else if n == 7 {
        "7"
    } else if n == 8 {
        "8"
    } else {
        "9"
    }
}

/// The decimal notation of a number.
pub fn decimal_text(n: u64) -> (r: String)
    ensures
        r@ == decimal(n as nat),
    decreases n,
{
    if n < 10 {
        digit_text(n).to_owned()
    } else {
        let mut out = decimal_text(n / 10);
        out.append(digit_text(n % 10));
        out
    }
}

/// A copy of an optional text.
pub fn copy_text(s: &Option<String>) -> (r: Option<String>)
    ensures
        r.deep_view() == s.deep_view(),
{
    match s {
        Some(t) => Some(t.clone()),
        None => None,
    }
}

/// A copy of a run of texts.
pub fn copy_texts(parts: &Vec<String>) -> (r: Vec<String>)
    ensures
        r.deep_view() == parts.deep_view(),
{
    let mut out: Vec<String> = Vec::new();
    let mut i: usize = 0;
    while i < parts.len()
        invariant
            i <= parts.len(),
            out.len() == i,
            forall|k: int| 0 <= k < i ==> (#[trigger] out@[k])@ == parts@[k]@,
        decreases parts.len() - i,
    {
        out.push(parts[i].clone());
        i += 1;
    }
    assert(out.deep_view() =~= parts.deep_view());
    out
}

/// One text after the other.
pub fn concat2(a: &str, b: &str) -> (r: String)
    ensures
        r@ == a@ + b@,
{
    let mut out = a.to_owned();
    out.append(b);
    out
}

} // verus!
