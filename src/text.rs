//! Newline-delimited records and the character-level string edits they need.

use vstd::prelude::*;

verus! {

/// Relies on `String::push`: appends one character at the end.
#[verifier::external_body]
pub(crate) fn push_char(s: &mut String, c: char)
    ensures
        final(s)@ == old(s)@.push(c),
{
    s.push(c)
}

/// Relies on `String::pop`: removes and returns the last character, if any.
#[verifier::external_body]
fn pop_char(s: &mut String) -> (r: Option<char>)
    ensures
        old(s)@.len() == 0 ==> r is None && final(s)@ == old(s)@,
        old(s)@.len() > 0 ==> r == Some(old(s)@.last()) && final(s)@ == old(s)@.drop_last(),
{
    s.pop()
}

/// `s` without one trailing newline, if it ends with one.
pub open spec fn chomped(s: Seq<char>) -> Seq<char> {
    if s.len() > 0 && s.last() == '\n' {
        s.drop_last()
    } else {
        s
    }
}

/// Removes at most one trailing newline character; nothing else is touched.
pub fn chomp(input: &mut String)
    ensures
        final(input)@ == chomped(old(input)@),
{
    match pop_char(input) {
        None => {},
        Some(c) => {
            if c != '\n' {
                push_char(input, c);
                assert(final(input)@ =~= old(input)@);
            }
        },
    }
}

/// The pieces of `t` between newline characters: one more piece than there
/// are newlines in `t`.
pub open spec fn pieces(t: Seq<char>) -> Seq<Seq<char>>
    decreases t.len(),
{
    if t.len() == 0 {
        seq![Seq::empty()]
    } else {
        let before = pieces(t.drop_last());
        if t.last() == '\n' {
            before.push(Seq::empty())
        } else {
            before.update(before.len() - 1, before.last().push(t.last()))
        }
    }
}

/// The newline-delimited records of `t`. A final newline ends the last record
/// rather than starting an empty one; a last record without a newline counts.
pub open spec fn records_of(t: Seq<char>) -> Seq<Seq<char>> {
    if t.len() == 0 {
        Seq::empty()
    } else if t.last() == '\n' {
        pieces(t).drop_last()
    } else {
        pieces(t)
    }
}

pub(crate) proof fn lemma_pieces_nonempty(t: Seq<char>)
    ensures
        pieces(t).len() >= 1,
    decreases t.len(),
{
    if t.len() > 0 {
        lemma_pieces_nonempty(t.drop_last());
    }
}

/// Splits `text` into its newline-delimited records.
pub fn split_records(text: &str) -> (r: Vec<String>)
    ensures
        r@.map_values(|s: String| s@) == records_of(text@),
{
    let mut done: Vec<String> = Vec::new();
    let mut current = String::new();
    let ghost mut seen: Seq<char> = Seq::empty();
    for c in it: text.chars()
        invariant
            it.seq() == text@,
            seen == text@.take(it.index() as int),
            done@.map_values(|s: String| s@).push(current@) == pieces(seen),
    {
        proof {
            lemma_pieces_nonempty(seen);
        }
        let ghost prev = seen;
        proof {
            seen = seen.push(c);
            assert(seen.drop_last() =~= prev);
        }
        if c == '\n' {
            done.push(current);
            current = String::new();
            assert(done@.map_values(|s: String| s@).push(current@) =~= pieces(seen));
        } else {
            push_char(&mut current, c);
            assert(done@.map_values(|s: String| s@).push(current@) =~= pieces(seen));
        }
    }
    let ghost parts = done@.map_values(|s: String| s@);
    proof {
        assert(seen =~= text@);
        assert(parts.push(current@).last() == current@);
        if text@.len() > 0 {
            lemma_pieces_nonempty(text@.drop_last());
            if text@.last() != '\n' {
                assert(current@.len() > 0);
            } else {
                assert(current@.len() == 0);
                assert(parts =~= pieces(text@).drop_last());
            }
        }
    }
    if !current.as_str().is_empty() {
        done.push(current);
        assert(done@.map_values(|s: String| s@) =~= parts.push(current@));
    }
    assert(done@.map_values(|s: String| s@) =~= records_of(text@));
    done
}

} // verus!
