//! Measurement outcomes: one string of `0`s and `1`s per shot, most
//! significant bit first, and the fixed-width bit vectors they are stored as.

use vstd::prelude::*;

verus! {

/// The outcomes of a job as texts, one per shot.
pub open spec fn texts_of(outcomes: Seq<String>) -> Seq<Seq<char>> {
    Seq::new(outcomes.len(), |i: int| outcomes[i]@)
}

/// The character of `text` that decides entry `j` of a vector of `width`
/// entries, counted from the left of `text`. The vector is aligned with the
/// right end of the text, so the index is negative where the text is shorter
/// than the vector reaches.
pub open spec fn source_index(text: Seq<char>, width: int, j: int) -> int {
    text.len() - width + j
}

/// Entry `j` of the bit vector of `text`: 1 where the deciding character
/// exists and is `1`, otherwise 0.
pub open spec fn bit_at(text: Seq<char>, width: int, j: int) -> u8 {
    let k = source_index(text, width, j);
    if 0 <= k < text.len() && text[k] == '1' {
        1u8
    } else {
        0u8
    }
}

/// The vector of exactly `width` entries that stands for `text`. A shorter
/// text leaves its most significant entries 0; of a longer text only the
/// last `width` characters count.
pub open spec fn bit_vector(text: Seq<char>, width: nat) -> Seq<u8> {
    Seq::new(width, |j: int| bit_at(text, width as int, j))
}

/// The vector of `width` zeros.
pub open spec fn zero_vector(width: nat) -> Seq<u8> {
    Seq::new(width, |j: int| 0u8)
}

/// The characters of `text`, in order.
pub fn chars_of(text: &str) -> (chars: Vec<char>)
    ensures
        chars@ == text@,
{
    let mut chars: Vec<char> = Vec::new();
    for c in it: text.chars()
        invariant
            chars@ == it.seq().take(it.index() as int),
            it.seq() == text@,
    {
        chars.push(c);
    }
    chars
}

/// A fresh vector of `width` zeros.
pub fn zeros(width: usize) -> (bits: Vec<u8>)
    ensures
        bits@ == zero_vector(width as nat),
{
    let bits = vec![0u8; width];
    bits
}

/// Converts a measurement string into its vector of `width` bits.
pub fn measurement_bits(text: &str, width: usize) -> (bits: Vec<u8>)
    ensures
        bits@ == bit_vector(text@, width as nat),
{
    let chars = chars_of(text);
    let n = chars.len();
    let mut bits: Vec<u8> = Vec::new();
    let mut j: usize = 0;
    while j < width
        invariant
            j <= width,
            n == chars@.len(),
            chars@ == text@,
            bits@ == Seq::new(j as nat, |i: int| bit_at(text@, width as int, i)),
        decreases width - j,
    {
        let from_right = width - j;
        let bit: u8 = if from_right <= n && chars[n - from_right] == '1' {
            1
        } else {
            0
        };
        bits.push(bit);
        j += 1;
    }
    bits
}

/// A text no longer than the vector is stored whole at the right end of the
/// vector: its character `k` decides entry `width - len + k`, and the entries
/// to the left of the text are 0.
pub proof fn lemma_short_text_is_padded(text: Seq<char>, width: nat, k: int)
    requires
        text.len() <= width,
        0 <= k < text.len(),
    ensures
        bit_vector(text, width)[width - text.len() + k] == (if text[k] == '1' {
            1u8
        } else {
            0u8
        }),
        forall|j: int| 0 <= j < width - text.len() ==> bit_vector(text, width)[j] == 0u8,
{
}

/// Of a text longer than the vector only the last `width` characters count.
pub proof fn lemma_long_text_is_truncated(text: Seq<char>, width: nat)
    requires
        text.len() >= width,
    ensures
        bit_vector(text, width) == bit_vector(
            text.subrange(text.len() - width, text.len() as int),
            width,
        ),
{
}

} // verus!
