//! The gateway's own request and response form, and what decides where a request goes.

pub mod alias;
pub mod fallback;
pub mod types;

use vstd::prelude::*;

use crate::text::{
    chars_of, find_from, first_at, lemma_first_at, lemma_trimmed_end_after,
    lemma_trimmed_of_trimmed_end, occurs_at, trim, trimmed, trimmed_end,
};

verus! {

/// The text without its first `<think>` block, and the reasoning in that block. A text without
/// such a block stays as it is.
pub open spec fn thinking_split(text: Seq<char>) -> (Seq<char>, Option<Seq<char>>) {
    let t = trimmed(text);
    match first_at(t, "<think>"@, 0) {
        None => (text, None),
        Some(start) => match first_at(t, "</think>"@, start) {
            None => (text, None),
            Some(end) => (
                trimmed(t.take(start) + t.skip(end + "</think>"@.len())),
                Some(trimmed(t.subrange(start + "<think>"@.len(), end))),
            ),
        },
    }
}

/// A closing tag does not begin inside the opening one.
proof fn lemma_close_after_open(t: Seq<char>, start: int, end: int)
    requires
        occurs_at(t, "<think>"@, start),
        occurs_at(t, "</think>"@, end),
        start <= end,
    ensures
        start + "<think>"@.len() <= end,
{
    reveal_strlit("<think>");
    reveal_strlit("</think>");
    let open = t.subrange(start, start + 7);
    let close = t.subrange(end, end + 8);
    assert(close[0] == '<' && close[1] == '/');
    assert(t[end] == '<' && t[end + 1] == '/');
    assert(open[0] == '<' && open[1] == 't' && open[2] == 'h' && open[3] == 'i' && open[4] == 'n'
        && open[5] == 'k' && open[6] == '>');
    assert(t[start + 1] == open[1] && t[start + 2] == open[2] && t[start + 3] == open[3]
        && t[start + 4] == open[4] && t[start + 5] == open[5] && t[start + 6] == open[6]);
}

/// The tags of a text that starts with a `<think>` block.
proof fn lemma_tags_found(reasoning: Seq<char>, rest: Seq<char>)
    requires
        first_at(reasoning + "</think>"@, "</think>"@, 0) == Some(reasoning.len() as int),
    ensures
        ({
            let t = "<think>"@ + reasoning + "</think>"@ + rest;
            &&& first_at(t, "<think>"@, 0) == Some(0int)
            &&& first_at(t, "</think>"@, 0) == Some(("<think>"@.len() + reasoning.len()) as int)
        }),
{
    let open = "<think>"@;
    let close = "</think>"@;
    let t = open + reasoning + close + rest;
    let end = (open.len() + reasoning.len()) as int;
    assert(t.subrange(0, open.len() as int) =~= open);
    assert(occurs_at(t, open, 0));
    assert(t.subrange(end, end + close.len()) =~= close);
    assert(occurs_at(t, close, end));
    lemma_first_at(t, close, 0);
    lemma_first_at(reasoning + close, close, 0);
    match first_at(t, close, 0) {
        Some(found) => {
            if found < end {
                lemma_close_after_open(t, 0, found);
                let k = found - open.len();
                assert((reasoning + close).subrange(k, k + close.len()) =~= t.subrange(
                    found,
                    found + close.len(),
                ));
                assert(occurs_at(reasoning + close, close, k));
            }
        },
        None => {},
    }
}

/// A text that starts with a `<think>` block has no white space around it but at its end.
proof fn lemma_trimmed_block(reasoning: Seq<char>, rest: Seq<char>)
    ensures
        trimmed("<think>"@ + reasoning + "</think>"@ + rest) == "<think>"@ + reasoning
            + "</think>"@ + trimmed_end(rest),
{
    reveal_strlit("<think>");
    reveal_strlit("</think>");
    let head = "<think>"@ + reasoning + "</think>"@;
    let text = head + rest;
    assert(text.first() == '<');
    assert(head.last() == '>');
    lemma_trimmed_end_after(head, rest);
}

/// A text that starts with a `<think>` block is split into the reasoning in the block and what
/// follows the block, both without white space around them, where the reasoning ends at the first
/// closing tag.
pub proof fn law_thinking_taken_out(reasoning: Seq<char>, rest: Seq<char>)
    requires
        first_at(reasoning + "</think>"@, "</think>"@, 0) == Some(reasoning.len() as int),
    ensures
        thinking_split("<think>"@ + reasoning + "</think>"@ + rest) == (
            trimmed(rest),
            Some(trimmed(reasoning)),
        ),
{
    let open = "<think>"@;
    let close = "</think>"@;
    let t = open + reasoning + close + trimmed_end(rest);
    lemma_trimmed_block(reasoning, rest);
    lemma_tags_found(reasoning, trimmed_end(rest));
    let end = (open.len() + reasoning.len()) as int;
    assert(t.subrange(open.len() as int, end) =~= reasoning);
    assert(t.take(0) + t.skip(end + close.len()) =~= trimmed_end(rest));
    lemma_trimmed_of_trimmed_end(rest);
}

/// Takes the first `<think>` block out of a text. Returns what is left, and the reasoning that
/// stood in the block.
pub fn extract_thinking(text: &str) -> (r: (String, Option<String>))
    ensures
        r.deep_view() == thinking_split(text@),
{
    let t = trim(text);
    let chars = chars_of(t);
    let open = chars_of("<think>");
    let close = chars_of("</think>");
    match find_from(&chars, &open, 0) {
        None => (text.to_owned(), None),
        Some(start) => match find_from(&chars, &close, start) {
            None => (text.to_owned(), None),
            Some(end) => {
                proof {
                    lemma_first_at(t@, "<think>"@, 0);
                    lemma_first_at(t@, "</think>"@, start as int);
                    lemma_close_after_open(t@, start as int, end as int);
                    assert(end + close.len() <= chars.len());
                }
                let thinking = trim(t.substring_char(start + open.len(), end));
                let mut rest = t.substring_char(0, start).to_owned();
                rest.append(t.substring_char(end + close.len(), chars.len()));
                proof {
                    assert(t@.subrange(0, start as int) =~= t@.take(start as int));
                    assert(t@.subrange(end + close@.len(), t@.len() as int) =~= t@.skip(
                        end + close@.len(),
                    ));
                }
                (trim(rest.as_str()).to_owned(), Some(thinking.to_owned()))
            },
        },
    }
}

} // verus!
