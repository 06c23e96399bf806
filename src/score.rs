//! The score of the current game and the best score ever reached.
use vstd::prelude::*;
use vstd::string::StringSliceAdditionalSpecFns;

verus! {

pub struct Score {
    pub score: u32,
    pub high_score: u32,
}

/// `a + b`, or `u32::MAX` where that sum does not fit.
pub open spec fn sat_add(a: int, b: int) -> int {
    if a + b > u32::MAX { u32::MAX as int } else { a + b }
}

pub open spec fn max(a: int, b: int) -> int {
    if a >= b { a } else { b }
}

/// The score after adding `v`: the high score follows it up.
pub open spec fn increased(s: Score, v: u32) -> Score {
    let score = sat_add(s.score as int, v as int) as u32;
    Score { score, high_score: max(s.high_score as int, score as int) as u32 }
}

/// The scores after each of the increases in `values`, starting from `s`.
pub open spec fn increased_all(s: Score, values: Seq<u32>) -> Score
    decreases values.len(),
{
    if values.len() == 0 {
        s
    } else {
        increased(increased_all(s, values.drop_last()), values.last())
    }
}

/// Over any run of increases the score never goes down, and the high score
/// ends as the largest of the starting high score and every score observed
/// along the way (which is the last one).
pub proof fn lemma_score_monotone(s: Score, values: Seq<u32>)
    requires
        s.wf(),
    ensures
        forall|i: int, j: int|
            0 <= i <= j <= values.len() ==> (#[trigger] increased_all(s, values.take(i))).score
                <= (#[trigger] increased_all(s, values.take(j))).score,
        forall|i: int|
            0 <= i <= values.len() ==> (#[trigger] increased_all(s, values.take(i))).score
                <= increased_all(s, values).high_score,
        increased_all(s, values).high_score == max(s.high_score as int, increased_all(s, values).score as int),
        increased_all(s, values).wf(),
    decreases values.len(),
{
    if values.len() > 0 {
        let d = values.drop_last();
        lemma_score_monotone(s, d);
        assert(values.take(values.len() as int) =~= values);
        assert forall|i: int| 0 <= i <= d.len() implies #[trigger] values.take(i) == d.take(i) by {
            assert(values.take(i) =~= d.take(i));
        }
        assert(d.take(d.len() as int) =~= d);
    } else {
        assert(values.take(0) =~= values);
    }
}

/// One score operation: `Some(v)` adds `v`, `None` resets the score.
pub open spec fn score_step(s: Score, op: Option<u32>) -> Score {
    match op {
        Some(v) => increased(s, v),
        None => Score { score: 0, ..s },
    }
}

/// The score after the operations `ops`, in order, starting from `s`.
pub open spec fn score_run(s: Score, ops: Seq<Option<u32>>) -> Score
    decreases ops.len(),
{
    if ops.len() == 0 {
        s
    } else {
        score_step(score_run(s, ops.drop_last()), ops.last())
    }
}

/// The largest score held at any point of the run, the start included.
pub open spec fn best_seen(s: Score, ops: Seq<Option<u32>>) -> int
    decreases ops.len(),
{
    if ops.len() == 0 {
        s.score as int
    } else {
        max(best_seen(s, ops.drop_last()), score_run(s, ops).score as int)
    }
}

/// Over any run of increases and resets, the high score is the largest of
/// the starting high score and every score held along the way, and it is
/// never below the current score.
pub proof fn lemma_high_score_is_best_seen(s: Score, ops: Seq<Option<u32>>)
    requires
        s.wf(),
    ensures
        score_run(s, ops).high_score == max(s.high_score as int, best_seen(s, ops)),
        score_run(s, ops).wf(),
    decreases ops.len(),
{
    if ops.len() > 0 {
        lemma_high_score_is_best_seen(s, ops.drop_last());
    }
}

pub open spec fn is_digit(b: u8) -> bool {
    48 <= b <= 57
}

/// The number that a string of decimal digits writes.
pub open spec fn decimal_value(d: Seq<u8>) -> int
    decreases d.len(),
{
    if d.len() == 0 {
        0
    } else {
        decimal_value(d.drop_last()) * 10 + (d.last() - 48)
    }
}

/// The digits of a stored number: the text without one leading `+`.
pub open spec fn digits_of(s: Seq<u8>) -> Seq<u8> {
    if s.len() > 0 && s[0] == 43 { s.subrange(1, s.len() as int) } else { s }
}

/// The high score that stored text stands for: an optional `+` then one or
/// more decimal digits whose value fits `u32`; anything else stands for 0.
pub open spec fn stored_value(s: Seq<u8>) -> int {
    let d = digits_of(s);
    if d.len() > 0 && (forall|i: int| 0 <= i < d.len() ==> is_digit(#[trigger] d[i])) && decimal_value(d) <= u32::MAX {
        decimal_value(d)
    } else {
        0
    }
}

proof fn lemma_decimal_value_grows(d: Seq<u8>, k: int)
    requires
        0 <= k <= d.len(),
        forall|i: int| 0 <= i < d.len() ==> is_digit(#[trigger] d[i]),
    ensures
        decimal_value(d.take(k)) <= decimal_value(d),
        0 <= decimal_value(d.take(k)),
    decreases d.len() - k,
{
    if k < d.len() {
        lemma_decimal_value_grows(d, k + 1);
        assert(d.take(k + 1).drop_last() =~= d.take(k));
    } else {
        assert(d.take(k) =~= d);
    }
    lemma_decimal_value_nonneg(d.take(k));
}

proof fn lemma_decimal_value_nonneg(d: Seq<u8>)
    requires
        forall|i: int| 0 <= i < d.len() ==> is_digit(#[trigger] d[i]),
    ensures
        0 <= decimal_value(d),
    decreases d.len(),
{
    if d.len() > 0 {
        lemma_decimal_value_nonneg(d.drop_last());
    }
}

/// The high score that stored text stands for (0 when the text is not a
/// decimal number that fits `u32`).
pub fn parse_high_score(text: &str) -> (r: u32)
    ensures
        r == stored_value(text.spec_bytes()),
{
    let bytes = text.as_bytes();
    let ghost s = bytes@;
    let ghost d = digits_of(s);
    let n = bytes.len();
    let start: usize = if n > 0 && bytes[0] == 43u8 { 1 } else { 0 };
    if start == n {
        return 0;
    }
    assert(d =~= s.subrange(start as int, n as int));
    let mut value: u64 = 0;
    let mut i: usize = start;
    while i < n
        invariant
            s == bytes@,
            s == text.spec_bytes(),
            n == s.len(),
            start <= i <= n,
            d =~= s.subrange(start as int, n as int),
            d == digits_of(s),
            forall|j: int| 0 <= j < i - start ==> is_digit(#[trigger] d[j]),
            value == decimal_value(d.take(i - start)),
            value <= u32::MAX,
        decreases n - i,
    {
        let b = bytes[i];
        if b < 48u8 || b > 57u8 {
            assert(d[i - start] == b);
            assert(!is_digit(d[i - start]));
            assert(stored_value(s) == 0);
            return 0;
        }
        proof {
            assert(d.take(i - start + 1).drop_last() =~= d.take(i - start));
            assert(d[i - start] == b);
            assert(d.take(i - start + 1).last() == b);
        }
        value = value * 10 + (b - 48u8) as u64;
        assert(value == decimal_value(d.take(i - start + 1)));
        if value > 0xffff_ffff {
            proof {
                if forall|j: int| 0 <= j < d.len() ==> is_digit(#[trigger] d[j]) {
                    lemma_decimal_value_grows(d, i - start + 1);
                }
                assert(stored_value(s) == 0);
            }
            return 0;
        }
        i += 1;
    }
    assert(d.take(n - start) =~= d);
    value as u32
}

impl Score {
    pub open spec fn wf(self) -> bool {
        self.score <= self.high_score
    }

    /// A new game's score, with the high score read from storage.
    pub fn new(high_score: u32) -> (r: Score)
        ensures
            r.score == 0,
            r.high_score == high_score,
            r.wf(),
    {
        Score { score: 0, high_score }
    }

    /// Adds `value` to the score (saturating at `u32::MAX`); the high score
    /// follows.
    pub fn increase(&mut self, value: u32)
        requires
            old(self).wf(),
        ensures
            *final(self) == increased(*old(self), value),
            *final(self) == score_step(*old(self), Some(value)),
            final(self).score >= old(self).score,
            final(self).wf(),
    {
        self.score = self.score.saturating_add(value);
        if self.score > self.high_score {
            self.high_score = self.score;
        }
    }

    /// Starts again from zero; the high score stays.
    pub fn reset(&mut self)
        requires
            old(self).wf(),
        ensures
            final(self).score == 0,
            final(self).high_score == old(self).high_score,
            *final(self) == score_step(*old(self), None),
            final(self).wf(),
    {
        self.score = 0;
    }

    /// Whether this game's score is the high score (and so is to be stored).
    pub fn is_high_score(&self) -> (r: bool)
        ensures
            r == (self.score == self.high_score),
    {
        self.score == self.high_score
    }
}

} // verus!
