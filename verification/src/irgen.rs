//! Pieces of the IR generator that stand on their own: loop labels, and the splitting of an
//! interpolated string into its text and the places where values go.

use vstd::prelude::*;

use vstd::string::{StrSliceExecFns, StringExecFns};

verus! {

/// A label that a loop can be left or continued by, and whether some statement jumps to it.
#[derive(Debug, Clone, PartialEq)]
pub struct LoopLabel {
    pub label: String,
    pub used: bool,
}

impl LoopLabel {
    pub fn new(label: &String) -> (res: Self)
        ensures
            res.label@ == label@,
            !res.used,
    {
        LoopLabel { label: label.clone(), used: false }
    }
}

/// A part of an interpolated string: a place where a value goes, or a piece of text.
#[derive(Debug, PartialEq)]
pub enum InterpolatedStringPortion {
    Value,
    String(String),
}

/// The parts as text: `None` for a value, `Some` for a piece of text.
pub open spec fn portions_view(p: Seq<InterpolatedStringPortion>) -> Seq<Option<Seq<char>>> {
    p.map_values(
        |x: InterpolatedStringPortion|
            match x {
                InterpolatedStringPortion::Value => None,
                InterpolatedStringPortion::String(s) => Some(s@),
            },
    )
}

/// Adds `ch` to the last piece of text, starting one if there is none.
pub open spec fn add_char(parts: Seq<Option<Seq<char>>>, ch: char) -> Seq<Option<Seq<char>>> {
    if parts.len() == 0 {
        seq![Some(seq![ch])]
    } else {
        parts.update(parts.len() - 1, Some(parts.last()->0.push(ch)))
    }
}

/// One character of the string: a `%` that no backslash escapes starts a value and a new
/// piece of text; any other character joins the last piece of text. The flag tells whether the
/// character before was an escaping backslash.
pub open spec fn split_step(state: (Seq<Option<Seq<char>>>, bool), ch: char) -> (Seq<Option<Seq<char>>>, bool) {
    if ch == '\\' {
        (add_char(state.0, ch), !state.1)
    } else if ch == '%' && !state.1 {
        (state.0.push(None).push(Some(Seq::empty())), false)
    } else {
        (add_char(state.0, ch), false)
    }
}

pub open spec fn split_state(s: Seq<char>) -> (Seq<Option<Seq<char>>>, bool)
    decreases s.len(),
{
    if s.len() == 0 {
        (Seq::empty(), false)
    } else {
        split_step(split_state(s.drop_last()), s.last())
    }
}

/// The parts of an interpolated string.
pub open spec fn split_interpolated(s: Seq<char>) -> Seq<Option<Seq<char>>> {
    split_state(s).0
}

/// The last part, where there is one, is a piece of text.
pub proof fn lemma_last_is_text(s: Seq<char>)
    ensures
        split_interpolated(s).len() > 0 ==> split_interpolated(s).last() is Some,
    decreases s.len(),
{
    if s.len() > 0 {
        lemma_last_is_text(s.drop_last());
    }
}

/// The number of backslashes that `s` ends with.
pub open spec fn trailing_backslashes(s: Seq<char>) -> nat
    decreases s.len(),
{
    if s.len() > 0 && s.last() == '\\' {
        1 + trailing_backslashes(s.drop_last())
    } else {
        0
    }
}

/// `s` ends with a `%` that starts a value: one after an even number (perhaps none) of
/// backslashes.
pub open spec fn ends_with_placeholder(s: Seq<char>) -> bool {
    s.len() > 0 && s.last() == '%' && trailing_backslashes(s.drop_last()) % 2 == 0
}

/// The number of `%` in `s` that start a value.
pub open spec fn placeholder_count(s: Seq<char>) -> nat
    decreases s.len(),
{
    if s.len() == 0 {
        0
    } else {
        placeholder_count(s.drop_last()) + if ends_with_placeholder(s) { 1nat } else { 0nat }
    }
}

/// `s` without the `%` that start a value.
pub open spec fn without_placeholders(s: Seq<char>) -> Seq<char>
    decreases s.len(),
{
    if s.len() == 0 {
        s
    } else if ends_with_placeholder(s) {
        without_placeholders(s.drop_last())
    } else {
        without_placeholders(s.drop_last()).push(s.last())
    }
}

/// The number of places for values among the parts.
pub open spec fn value_count(parts: Seq<Option<Seq<char>>>) -> nat
    decreases parts.len(),
{
    if parts.len() == 0 {
        0
    } else {
        value_count(parts.drop_last()) + if parts.last() is None { 1nat } else { 0nat }
    }
}

/// The pieces of text among the parts, one after the other.
pub open spec fn text_of(parts: Seq<Option<Seq<char>>>) -> Seq<char>
    decreases parts.len(),
{
    if parts.len() == 0 {
        Seq::empty()
    } else {
        text_of(parts.drop_last()) + match parts.last() {
            Some(t) => t,
            None => Seq::empty(),
        }
    }
}

/// The parts at `i` and `i + 1` are of different kinds: one a place for a value, the other a
/// piece of text.
pub open spec fn kinds_differ(parts: Seq<Option<Seq<char>>>, i: int) -> bool {
    (parts[i] is None) != (parts[i + 1] is None)
}

/// Each place for a value is followed by a piece of text, and no two pieces of text are next
/// to each other: neighbouring parts differ in kind, and the last part is a piece of text.
pub open spec fn alternates(parts: Seq<Option<Seq<char>>>) -> bool {
    &&& parts.len() > 0 ==> parts.last() is Some
    &&& forall|i: int| 0 <= i < parts.len() - 1 ==> #[trigger] kinds_differ(parts, i)
}

proof fn lemma_add_char(parts: Seq<Option<Seq<char>>>, ch: char)
    requires
        alternates(parts),
    ensures
        value_count(add_char(parts, ch)) == value_count(parts),
        text_of(add_char(parts, ch)) == text_of(parts).push(ch),
        alternates(add_char(parts, ch)),
{
    let r = add_char(parts, ch);
    if parts.len() == 0 {
        assert(r.drop_last() =~= Seq::<Option<Seq<char>>>::empty());
        assert(text_of(r.drop_last()) == Seq::<char>::empty());
        assert(value_count(r.drop_last()) == 0);
        assert(text_of(r) =~= seq![ch]);
    } else {
        assert(r.drop_last() =~= parts.drop_last());
        assert(text_of(r) =~= text_of(parts).push(ch));
        assert(value_count(r) == value_count(parts));
        assert forall|i: int| 0 <= i < r.len() - 1 implies #[trigger] kinds_differ(r, i) by {
            assert(kinds_differ(parts, i));
            assert(r[i] == parts[i]);
            if i + 1 < parts.len() - 1 {
                assert(r[i + 1] == parts[i + 1]);
            }
        }
    }
}

/// Splitting an interpolated string gives one place for a value for each `%` that no odd run
/// of backslashes escapes; its pieces of text, one after the other, are the string without
/// those `%`; each place for a value is followed by a piece of text, and no two pieces of text
/// are next to each other.
pub proof fn lemma_split_counts(s: Seq<char>)
    ensures
        value_count(split_interpolated(s)) == placeholder_count(s),
        text_of(split_interpolated(s)) == without_placeholders(s),
        alternates(split_interpolated(s)),
        split_state(s).1 == (trailing_backslashes(s) % 2 == 1),
    decreases s.len(),
{
    if s.len() > 0 {
        let rest = s.drop_last();
        let ch = s.last();
        lemma_split_counts(rest);
        let parts = split_interpolated(rest);
        if ch == '\\' {
            lemma_add_char(parts, ch);
        } else if ch == '%' && !split_state(rest).1 {
            let r = parts.push(None).push(Some(Seq::<char>::empty()));
            assert(r.drop_last() == parts.push(None));
            assert(r.drop_last().drop_last() == parts);
            assert(text_of(r.drop_last()) =~= text_of(parts) + Seq::<char>::empty());
            assert(text_of(r) =~= text_of(r.drop_last()) + Seq::<char>::empty());
            assert(text_of(r) =~= text_of(parts));
            assert(value_count(r.drop_last()) == value_count(parts) + 1);
            assert forall|i: int| 0 <= i < r.len() - 1 implies #[trigger] kinds_differ(r, i) by {
                if i < parts.len() - 1 {
                    assert(kinds_differ(parts, i));
                    assert(r[i] == parts[i] && r[i + 1] == parts[i + 1]);
                } else if i == parts.len() - 1 {
                    assert(r[i] == parts[i]);
                }
            }
        } else {
            lemma_add_char(parts, ch);
        }
    }
}

/// `String::push`: the character is added at the end.
#[verifier::external_body]
pub(crate) fn push_char(s: &mut String, ch: char)
    ensures
        final(s)@ == old(s)@.push(ch),
{
    s.push(ch)
}

fn add_char_to(parts: &mut Vec<InterpolatedStringPortion>, ch: char)
    requires
        portions_view(old(parts)@).len() > 0 ==> portions_view(old(parts)@).last() is Some,
    ensures
        portions_view(final(parts)@) == add_char(portions_view(old(parts)@), ch),
{
    let ghost before = portions_view(parts@);
    match parts.pop() {
        Some(InterpolatedStringPortion::String(mut text)) => {
            push_char(&mut text, ch);
            parts.push(InterpolatedStringPortion::String(text));
            proof {
                assert(portions_view(parts@) =~= add_char(before, ch));
            }
        },
        Some(InterpolatedStringPortion::Value) => {
            proof {
                assert(before.last() is None);
            }
        },
        None => {
            let mut text = String::new();
            push_char(&mut text, ch);
            parts.push(InterpolatedStringPortion::String(text));
            proof {
                assert(portions_view(parts@) =~= add_char(before, ch));
            }
        },
    }
}

/// The parts of an interpolated string: the pieces of text and, for each `%` that no
/// backslash escapes, the place of a value.
pub fn split_interpolated_string(s: &str) -> (res: Vec<InterpolatedStringPortion>)
    ensures
        portions_view(res@) == split_interpolated(s@),
{
    let mut result: Vec<InterpolatedStringPortion> = Vec::new();
    let mut last_was_backslash = false;
    let n = s.unicode_len();
    let mut i: usize = 0;
    while i < n
        invariant
            n == s@.len(),
            i <= n,
            (portions_view(result@), last_was_backslash) == split_state(s@.take(i as int)),
        decreases n - i,
    {
        let ch = s.get_char(i);
        proof {
            assert(s@.take(i as int + 1).drop_last() =~= s@.take(i as int));
            assert(s@.take(i as int + 1).last() == ch);
            lemma_last_is_text(s@.take(i as int));
        }
        if ch == '\\' {
            last_was_backslash = !last_was_backslash;
            add_char_to(&mut result, ch);
        } else if ch == '%' && !last_was_backslash {
            result.push(InterpolatedStringPortion::Value);
            result.push(InterpolatedStringPortion::String(String::new()));
            last_was_backslash = false;
            proof {
                let before = split_state(s@.take(i as int)).0;
                assert(portions_view(result@) =~= before.push(None).push(Some(Seq::empty())));
            }
        } else {
            last_was_backslash = false;
            add_char_to(&mut result, ch);
        }
        i = i + 1;
    }
    proof {
        assert(s@.take(n as int) =~= s@);
    }
    result
}

} // verus!
