//! The score and the best score as rows of eight digits.

use crate::components::{NumberType, ScoreLabel};
use crate::resources::Game;
use vstd::prelude::*;

verus! {

/// The number of character slots a number is shown in.
pub const DIGIT_SLOTS: usize = 8;

/// The decimal digits of `n`, most significant first; zero is one digit.
pub open spec fn digits_of(n: nat) -> Seq<u8>
    decreases n,
{
    if n < 10 {
        seq![n as u8]
    } else {
        digits_of(n / 10).push((n % 10) as u8)
    }
}

/// The text of `n` right-aligned in a field of `DIGIT_SLOTS` characters, with
/// `None` for a blank; a longer number fills the field with its leading digits.
pub open spec fn padded(n: nat) -> Seq<Option<u8>> {
    let ds = digits_of(n).map_values(|d: u8| Some(d));
    let text = if ds.len() < DIGIT_SLOTS {
        Seq::new((DIGIT_SLOTS - ds.len()) as nat, |i: int| None::<u8>) + ds
    } else {
        ds
    };
    text.subrange(0, DIGIT_SLOTS as int)
}

/// One entity for each digit among the first `k` slots.
pub open spec fn shown(slots: Seq<Option<u8>>, label: ScoreLabel, k: int) -> Seq<NumberType>
    decreases k,
{
    if k <= 0 {
        Seq::empty()
    } else {
        match slots[k - 1] {
            Some(g) => shown(slots, label, k - 1).push(NumberType { label, slot: (k - 1) as usize, glyph: g }),
            None => shown(slots, label, k - 1),
        }
    }
}

/// The digit entities of `n` under `label`.
pub open spec fn number_of(n: nat, label: ScoreLabel) -> Seq<NumberType> {
    shown(padded(n), label, DIGIT_SLOTS as int)
}

proof fn lemma_digits_nonempty(n: nat)
    ensures
        digits_of(n).len() >= 1,
        forall|k: int| 0 <= k < digits_of(n).len() ==> #[trigger] digits_of(n)[k] < 10,
    decreases n,
{
    if n >= 10 {
        lemma_digits_nonempty(n / 10);
        assert(forall|k: int| 0 <= k < digits_of(n).len() - 1 ==> digits_of(n)[k] == digits_of(n / 10)[k]);
    }
}

/// The decimal digits of `n`, most significant first.
pub fn decimal_digits(n: u32) -> (r: Vec<u8>)
    ensures
        r@ == digits_of(n as nat),
{
    let mut m: u32 = n;
    let mut ds: Vec<u8> = Vec::new();
    while m >= 10
        invariant
            digits_of(n as nat) == digits_of(m as nat) + ds@,
        decreases m,
    {
        let ghost before = ds@;
        ds.insert(0, (m % 10) as u8);
        assert(digits_of(m as nat) + before =~= digits_of((m / 10) as nat) + ds@);
        m = m / 10;
    }
    let ghost before = ds@;
    ds.insert(0, m as u8);
    assert(digits_of(m as nat) + before =~= ds@);
    ds
}

/// What each of the `DIGIT_SLOTS` slots of `num` shows: a digit, or `None`
/// for a blank.
pub fn digit_slots(num: i32) -> (r: Vec<Option<u8>>)
    requires
        num >= 0,
    ensures
        r@ == padded(num as nat),
        r@.len() == DIGIT_SLOTS,
{
    let ds = decimal_digits(num as u32);
    proof {
        lemma_digits_nonempty(num as nat);
    }
    let ghost text = padded(num as nat);
    let len = ds.len();
    let mut slots: Vec<Option<u8>> = Vec::new();
    let mut i: usize = 0;
    while i < DIGIT_SLOTS
        invariant
            ds@ == digits_of(num as nat),
            len == ds@.len(),
            len >= 1,
            text == padded(num as nat),
            text.len() == DIGIT_SLOTS,
            i <= DIGIT_SLOTS,
            slots@ == text.subrange(0, i as int),
        decreases DIGIT_SLOTS - i,
    {
        if len < DIGIT_SLOTS {
            let pad = DIGIT_SLOTS - len;
            if i < pad {
                slots.push(None);
            } else {
                slots.push(Some(ds[i - pad]));
            }
        } else {
            slots.push(Some(ds[i]));
        }
        i += 1;
        assert(slots@ =~= text.subrange(0, i as int));
    }
    assert(slots@ =~= text);
    slots
}

/// The digit entities of `num` under `label`: one for each slot that shows a digit.
pub fn spawn_number(num: i32, label: ScoreLabel) -> (r: Vec<NumberType>)
    requires
        num >= 0,
    ensures
        r@ == number_of(num as nat, label),
{
    let slots = digit_slots(num);
    let mut r: Vec<NumberType> = Vec::new();
    let mut i: usize = 0;
    while i < DIGIT_SLOTS
        invariant
            slots@ == padded(num as nat),
            slots@.len() == DIGIT_SLOTS,
            i <= DIGIT_SLOTS,
            r@ == shown(slots@, label, i as int),
        decreases DIGIT_SLOTS - i,
    {
        if let Some(g) = slots[i] {
            r.push(NumberType { label, slot: i, glyph: g });
        }
        i += 1;
    }
    r
}

/// The digit entities of the best score, then of the score.
pub fn update_score(game: &Game) -> (r: Vec<NumberType>)
    requires
        game.wf(),
    ensures
        r@ == number_of(game.hi_score as nat, ScoreLabel::HiScore) + number_of(game.score as nat, ScoreLabel::Score),
{
    let mut r = spawn_number(game.hi_score, ScoreLabel::HiScore);
    let mut score = spawn_number(game.score, ScoreLabel::Score);
    r.append(&mut score);
    r
}

} // verus!
