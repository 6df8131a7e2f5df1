//! Substitution of variables in a program text: every occurrence of a name
//! is replaced by the text of its value, one variable after the other.

use vstd::prelude::*;

verus! {

/// `text` with every match of `from` replaced by `to`. Matches are found from
/// left to right and do not overlap: after a match the search goes on behind
/// it. The empty pattern matches before every character and at the end.
pub open spec fn replaced(text: Seq<char>, from: Seq<char>, to: Seq<char>) -> Seq<char>
    decreases text.len(),
{
    if from.len() == 0 {
        if text.len() == 0 {
            to
        } else {
            to + seq![text[0]] + replaced(text.drop_first(), from, to)
        }
    } else if text.len() < from.len() {
        text
    } else if text.subrange(0, from.len() as int) == from {
        to + replaced(text.subrange(from.len() as int, text.len() as int), from, to)
    } else {
        seq![text[0]] + replaced(text.drop_first(), from, to)
    }
}

/// One variable of a program text and the text that takes its place.
#[derive(Debug, Clone)]
pub struct Substitution {
    pub name: String,
    pub value: String,
}

/// The substitutions as pairs of texts.
pub open spec fn pairs_of(vars: Seq<Substitution>) -> Seq<(Seq<char>, Seq<char>)> {
    Seq::new(vars.len(), |i: int| (vars[i].name@, vars[i].value@))
}

/// `text` after the substitutions are made one after the other, first to
/// last, each on the result of the one before.
pub open spec fn substituted(text: Seq<char>, vars: Seq<(Seq<char>, Seq<char>)>) -> Seq<char>
    decreases vars.len(),
{
    if vars.len() == 0 {
        text
    } else {
        replaced(substituted(text, vars.drop_last()), vars.last().0, vars.last().1)
    }
}

/// Calls `str::replace`, which returns a new string in which all matches of
/// the pattern are replaced. This contract is believed, not proved. It spells
/// out what std documents of string patterns: the matches are the
/// non-overlapping ones, found from left to right, and the empty pattern
/// matches at every boundary between characters and at both ends.
#[verifier::external_body]
fn replace_all(text: &str, from: &str, to: &str) -> (out: String)
    ensures
        out@ == replaced(text@, from@, to@),
{
    text.replace(from, to)
}

/// Makes the substitutions in `text`, first to last.
pub fn substitute(text: &str, vars: &Vec<Substitution>) -> (out: String)
    ensures
        out@ == substituted(text@, pairs_of(vars@)),
{
    let ghost pairs = pairs_of(vars@);
    let mut out = text.to_owned();
    let mut i: usize = 0;
    while i < vars.len()
        invariant
            i <= vars@.len(),
            pairs == pairs_of(vars@),
            out@ == substituted(text@, pairs.take(i as int)),
        decreases vars@.len() - i,
    {
        proof {
            assert(pairs.take(i + 1).drop_last() =~= pairs.take(i as int));
        }
        out = replace_all(out.as_str(), vars[i].name.as_str(), vars[i].value.as_str());
        i += 1;
    }
    assert(pairs.take(i as int) =~= pairs);
    out
}

/// A text in which a name does not occur is left as it is.
pub proof fn lemma_replaced_without_match(text: Seq<char>, from: Seq<char>, to: Seq<char>)
    requires
        from.len() > 0,
        forall|i: int|
            0 <= i && i + from.len() <= text.len() ==> #[trigger] text.subrange(
                i,
                i + from.len(),
            ) != from,
    ensures
        replaced(text, from, to) == text,
    decreases text.len(),
{
    if text.len() >= from.len() {
        assert(text.subrange(0int, 0int + from.len()) != from);
        let rest = text.drop_first();
        assert forall|i: int| 0 <= i && i + from.len() <= rest.len() implies #[trigger] rest.subrange(
            i,
            i + from.len(),
        ) != from by {
            assert(rest.subrange(i, i + from.len()) =~= text.subrange(i + 1, i + 1 + from.len()));
        }
        lemma_replaced_without_match(rest, from, to);
    }
}

} // verus!
