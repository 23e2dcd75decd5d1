//! The texts the game shows that depend on its state, as ASCII bytes.
use vstd::prelude::*;

use crate::decimal::{decimal, encode_decimal};

verus! {

/// The loading screen shows one more dot every half second, up to three,
/// then starts over.
pub const LOADING_DOT_CYCLE: usize = 4;

/// ASCII code of `'.'`.
pub const DOT: u8 = 46;

/// `"Loading resources "`.
pub open spec fn loading_prefix() -> Seq<u8> {
    seq![
        76u8, 111u8, 97u8, 100u8, 105u8, 110u8, 103u8, 32u8, 114u8, 101u8, 115u8, 111u8, 117u8, 114u8, 99u8,
        101u8, 115u8, 32u8,
    ]
}

/// `"score: "`.
pub open spec fn score_prefix() -> Seq<u8> {
    seq![115u8, 99u8, 111u8, 114u8, 101u8, 58u8, 32u8]
}

/// `"best score: "`.
pub open spec fn best_score_prefix() -> Seq<u8> {
    seq![98u8, 101u8, 115u8, 116u8, 32u8] + score_prefix()
}

/// `n` dots.
pub open spec fn dots(n: nat) -> Seq<u8> {
    Seq::new(n, |i: int| DOT)
}

/// The text of the loading screen after `half_seconds` half seconds.
pub open spec fn loading_message(half_seconds: nat) -> Seq<u8> {
    loading_prefix() + dots(half_seconds % 4)
}

fn push_all(out: &mut Vec<u8>, tail: Vec<u8>)
    ensures
        final(out)@ == old(out)@ + tail@,
{
    let mut i: usize = 0;
    while i < tail.len()
        invariant
            i <= tail@.len(),
            out@ == old(out)@ + tail@.take(i as int),
        decreases tail@.len() - i,
    {
        out.push(tail[i]);
        assert(tail@.take(i as int + 1) =~= tail@.take(i as int).push(tail@[i as int]));
        i = i + 1;
    }
    assert(tail@.take(tail@.len() as int) =~= tail@);
}

fn score_prefix_bytes() -> (text: Vec<u8>)
    ensures
        text@ == score_prefix(),
{
    let v: Vec<u8> = vec![115u8, 99u8, 111u8, 114u8, 101u8, 58u8, 32u8];
    assert(v@ =~= score_prefix());
    v
}

/// The loading text is 18 characters of prefix and at most three dots:
/// one more dot each half second, starting over every two seconds.
pub proof fn lemma_loading_dots(half_seconds: nat)
    ensures
        loading_message(half_seconds).len() == 18 + half_seconds % 4,
        loading_message(half_seconds).len() <= 21,
        loading_message(half_seconds + 4) == loading_message(half_seconds),
        forall|i: int|
            18 <= i < loading_message(half_seconds).len() ==> #[trigger] loading_message(
                half_seconds,
            )[i] == 46,
{
    assert((half_seconds + 4) % 4 == half_seconds % 4);
}

/// The text of the loading screen after `half_seconds` half seconds:
/// `"Loading resources "` and as many dots as `half_seconds % 4`.
pub fn loading_text(half_seconds: usize) -> (text: Vec<u8>)
    ensures
        text@ == loading_message(half_seconds as nat),
{
    let mut text: Vec<u8> = vec![
        76u8, 111u8, 97u8, 100u8, 105u8, 110u8, 103u8, 32u8, 114u8, 101u8, 115u8, 111u8, 117u8, 114u8, 99u8,
        101u8, 115u8, 32u8,
    ];
    assert(text@ =~= loading_prefix());
    let count = half_seconds % LOADING_DOT_CYCLE;
    let mut i: usize = 0;
    while i < count
        invariant
            i <= count,
            text@ == loading_prefix() + dots(i as nat),
        decreases count - i,
    {
        text.push(DOT);
        assert(dots(i as nat + 1) =~= dots(i as nat).push(DOT));
        assert(loading_prefix() + dots(i as nat + 1) =~= (loading_prefix() + dots(
            i as nat,
        )).push(DOT));
        i = i + 1;
    }
    text
}

/// The score line of the screen: `"score: "` and the score in decimal.
pub fn score_text(score: usize) -> (text: Vec<u8>)
    ensures
        text@ == score_prefix() + decimal(score as nat),
{
    let mut text = score_prefix_bytes();
    push_all(&mut text, encode_decimal(score));
    text
}

/// The best-score line of the screen: `"best score: "` and the best score
/// in decimal.
pub fn best_score_text(best: usize) -> (text: Vec<u8>)
    ensures
        text@ == best_score_prefix() + decimal(best as nat),
{
    let mut text: Vec<u8> = vec![98u8, 101u8, 115u8, 116u8, 32u8];
    push_all(&mut text, score_prefix_bytes());
    assert(text@ =~= best_score_prefix());
    push_all(&mut text, encode_decimal(best));
    text
}

} // verus!
