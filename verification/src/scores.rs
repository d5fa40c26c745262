//! Score-vector arithmetic: the repetition penalty and the constraint mask.
//!
//! A model score is carried as the 32 bits of one IEEE 754 single-precision
//! value, so that the no-op cases of the pipeline keep scores bit-identical.

use rustc_apfloat::Float;
use vstd::prelude::*;

verus! {

/// The bit pattern of the single-precision value `1.0`; this penalty value
/// disables the repetition penalty exactly.
pub const SCORE_ONE_BITS: u32 = 0x3F80_0000;

/// The bit pattern of single-precision negative infinity, the minimum
/// representable score.
pub const SCORE_NEG_INF_BITS: u32 = 0xFF80_0000;

/// Whether a score cell holds a strictly positive value. By the IEEE 754
/// single-precision layout, the strictly positive values (subnormals and
/// positive infinity included, NaNs excluded) are exactly the bit patterns
/// from `0x0000_0001` through `0x7F80_0000`.
pub open spec fn score_is_positive(bits: u32) -> bool {
    0 < bits <= 0x7F80_0000
}

/// Executable form of `score_is_positive`.
pub fn score_positive(bits: u32) -> (r: bool)
    ensures
        r == score_is_positive(bits),
{
    0 < bits && bits <= 0x7F80_0000
}

/// Whether a cell holds a NaN: by the IEEE 754 single-precision layout,
/// the patterns strictly between positive infinity and the negative zero,
/// and those above negative infinity.
pub open spec fn score_is_nan(bits: u32) -> bool {
    (0x7F80_0000 < bits && bits < 0x8000_0000) || 0xFF80_0000 < bits
}

/// The IEEE 754 total order on non-NaN score cells, as bit patterns: for
/// the non-negative patterns it is the bit order, for the negative ones
/// its reverse, with the negative zero just below the positive one.
pub open spec fn score_le(x: u32, y: u32) -> bool {
    if x >= 0x8000_0000 && y >= 0x8000_0000 {
        y <= x
    } else if x >= 0x8000_0000 {
        true
    } else if y >= 0x8000_0000 {
        false
    } else {
        x <= y
    }
}

/// What IEEE 754 single-precision division returns, on bit patterns.
/// The quotient is a pure function of the two operands.
pub uninterp spec fn score_div(a: u32, b: u32) -> u32;

/// What IEEE 754 single-precision multiplication returns, on bit patterns.
/// The product is a pure function of the two operands.
pub uninterp spec fn score_mul(a: u32, b: u32) -> u32;

/// Relies on `rustc_apfloat::ieee::Single`: correctly rounded IEEE 754
/// single-precision division (round to nearest, ties to even), computed on
/// bit patterns. Dividing a positive value by a finite divisor greater
/// than one, correct rounding never exceeds the dividend: the real
/// quotient lies below it, and rounding to nearest cannot pass a
/// representable value.
#[verifier::external_body]
pub(crate) fn div_bits(a: u32, b: u32) -> (r: u32)
    ensures
        r == score_div(a, b),
        score_is_positive(a) && SCORE_ONE_BITS < b && b < 0x7F80_0000 ==> r <= a,
{
    let x = rustc_apfloat::ieee::Single::from_bits(a as u128);
    let y = rustc_apfloat::ieee::Single::from_bits(b as u128);
    (x / y).value.to_bits() as u32
}

/// Relies on `rustc_apfloat::ieee::Single`: correctly rounded IEEE 754
/// single-precision multiplication, computed on bit patterns. Multiplying
/// a negative value (the negative zero and negative infinity included) by
/// a finite factor greater than one never brings it closer to zero and
/// never leaves the negative range; a positive zero stays a positive zero
/// under any positive finite factor.
#[verifier::external_body]
pub(crate) fn mul_bits(a: u32, b: u32) -> (r: u32)
    ensures
        r == score_mul(a, b),
        0x8000_0000 <= a <= 0xFF80_0000 && SCORE_ONE_BITS < b && b < 0x7F80_0000 ==> a <= r
            <= 0xFF80_0000,
        a == 0 && 0 < b && b < 0x7F80_0000 ==> r == 0,
{
    let x = rustc_apfloat::ieee::Single::from_bits(a as u128);
    let y = rustc_apfloat::ieee::Single::from_bits(b as u128);
    (x * y).value.to_bits() as u32
}

// ---------------------------------------------------------------------------
// The mathematical model of the two score transformations
// ---------------------------------------------------------------------------

/// Whether token id `i` occurs in `tokens`.
pub open spec fn has_token(tokens: Seq<u32>, i: int) -> bool {
    exists|j: int| 0 <= j < tokens.len() && tokens[j] as int == i
}

/// The suffix of the history that the repetition penalty considers: its
/// `w` most recent tokens, or all of it when it is shorter.
pub open spec fn penalty_window(history: Seq<u32>, w: nat) -> Seq<u32> {
    if history.len() <= w {
        history
    } else {
        history.subrange(history.len() - w, history.len() as int)
    }
}

/// One token's score after the penalty: a positive score is divided by the
/// penalty, any other score is multiplied by it.
pub open spec fn penalize_cell(s: u32, p: u32) -> u32 {
    if score_is_positive(s) {
        score_div(s, p)
    } else {
        score_mul(s, p)
    }
}

/// The whole score vector after the repetition penalty. A penalty of `1.0`
/// is an exact no-op. Otherwise each token id that occurs in the penalty
/// window is penalized exactly once, however often it occurs there; ids
/// outside the vocabulary bounds are ignored.
pub open spec fn penalized_seq(scores: Seq<u32>, history: Seq<u32>, penalty: u32, w: nat) -> Seq<
    u32,
> {
    if penalty == SCORE_ONE_BITS {
        scores
    } else {
        Seq::new(
            scores.len(),
            |i: int|
                if has_token(penalty_window(history, w), i) {
                    penalize_cell(scores[i], penalty)
                } else {
                    scores[i]
                },
        )
    }
}

/// The whole score vector after constraint masking: every token outside the
/// allowed set gets the minimum representable score, every allowed token
/// keeps its score unchanged; allowed ids outside the vocabulary bounds are
/// ignored.
pub open spec fn masked_seq(scores: Seq<u32>, allowed: Seq<u32>) -> Seq<u32> {
    Seq::new(
        scores.len(),
        |i: int|
            if has_token(allowed, i) {
                scores[i]
            } else {
                SCORE_NEG_INF_BITS
            },
    )
}

proof fn lemma_has_token_push(tokens: Seq<u32>, x: u32, i: int)
    ensures
        has_token(tokens.push(x), i) == (has_token(tokens, i) || x as int == i),
{
    if has_token(tokens, i) {
        let j = choose|j: int| 0 <= j < tokens.len() && tokens[j] as int == i;
        assert(tokens.push(x)[j] as int == i);
    }
    if x as int == i {
        assert(tokens.push(x)[tokens.len() as int] as int == i);
    }
    if has_token(tokens.push(x), i) && x as int != i {
        let j = choose|j: int|
            0 <= j < tokens.push(x).len() && tokens.push(x)[j] as int == i;
        assert(j < tokens.len());
        assert(tokens[j] as int == i);
    }
}

// ---------------------------------------------------------------------------
// Executable transformations
// ---------------------------------------------------------------------------

/// Whether token `t` occurs in `history[start..end]`.
fn token_in_range(history: &Vec<u32>, start: usize, end: usize, t: u32) -> (r: bool)
    requires
        start <= end <= history@.len(),
    ensures
        r == has_token(history@.subrange(start as int, end as int), t as int),
{
    let mut j: usize = start;
    while j < end
        invariant
            start <= j <= end <= history@.len(),
            !has_token(history@.subrange(start as int, j as int), t as int),
        decreases end - j,
    {
        if history[j] == t {
            proof {
                assert(history@.subrange(start as int, end as int)[j - start] as int
                    == t as int);
            }
            return true;
        }
        proof {
            let pre = history@.subrange(start as int, j as int);
            let post = history@.subrange(start as int, (j + 1) as int);
            assert(post =~= pre.push(history@[j as int]));
            lemma_has_token_push(pre, history@[j as int], t as int);
        }
        j += 1;
    }
    false
}

/// Applies the repetition penalty to a score vector, in place: over the
/// window of the `window` most recent history tokens, each distinct token id
/// within bounds is penalized exactly once. A penalty of `1.0` leaves the
/// vector untouched. For a penalty strictly between one and infinity, no
/// non-NaN score ever rises: a token in the window never increases its own
/// likelihood.
pub fn apply_penalty_cells(scores: &mut Vec<u32>, history: &Vec<u32>, penalty: u32, window: usize)
    ensures
        final(scores)@ == penalized_seq(old(scores)@, history@, penalty, window as nat),
        SCORE_ONE_BITS < penalty && penalty < 0x7F80_0000 ==> forall|i: int|
            0 <= i < old(scores)@.len() && !score_is_nan(#[trigger] old(scores)@[i])
                ==> score_le(final(scores)@[i], old(scores)@[i]),
{
    if penalty == SCORE_ONE_BITS {
        return ;
    }
    let ghost orig = scores@;
    let start: usize = if history.len() > window {
        history.len() - window
    } else {
        0
    };
    let mut k: usize = start;
    while k < history.len()
        invariant
            start <= k <= history@.len(),
            start == if history@.len() > window { history@.len() - window as int } else { 0int },
            scores@.len() == orig.len(),
            forall|i: int|
                0 <= i < orig.len() ==> scores@[i] == (if has_token(
                    history@.subrange(start as int, k as int),
                    i,
                ) {
                    penalize_cell(orig[i], penalty)
                } else {
                    orig[i]
                }),
            SCORE_ONE_BITS < penalty && penalty < 0x7F80_0000 ==> forall|i: int|
                0 <= i < orig.len() && !score_is_nan(#[trigger] orig[i]) ==> score_le(
                    scores@[i],
                    orig[i],
                ),
        decreases history@.len() - k,
    {
        let t = history[k];
        let ghost pre = history@.subrange(start as int, k as int);
        let ghost post = history@.subrange(start as int, (k + 1) as int);
        proof {
            assert(post =~= pre.push(history@[k as int]));
        }
        if (t as usize) < scores.len() {
            if !token_in_range(history, start, k, t) {
                let idx = t as usize;
                let s = scores[idx];
                let v = if score_positive(s) {
                    div_bits(s, penalty)
                } else {
                    mul_bits(s, penalty)
                };
                scores[idx] = v;
                proof {
                    if SCORE_ONE_BITS < penalty && penalty < 0x7F80_0000 {
                        assert forall|i: int|
                            0 <= i < orig.len() && !score_is_nan(#[trigger] orig[i]) implies score_le(
                            scores@[i],
                            orig[i],
                        ) by {
                            if i == idx as int {
                                assert(s == orig[i]);
                                assert(score_le(v, orig[i]));
                            }
                        }
                    }
                }
            }
        }
        proof {
            assert forall|i: int| 0 <= i < orig.len() implies scores@[i] == (if has_token(
                post,
                i,
            ) {
                penalize_cell(orig[i], penalty)
            } else {
                orig[i]
            }) by {
                lemma_has_token_push(pre, history@[k as int], i);
            }
        }
        k += 1;
    }
    proof {
        assert(history@.subrange(start as int, history@.len() as int) =~= penalty_window(
            history@,
            window as nat,
        ));
        assert(scores@ =~= penalized_seq(orig, history@, penalty, window as nat));
    }
}

/// Applies the constraint mask to a score vector, in place: every token id
/// outside `allowed` is set to the minimum representable score; allowed ids
/// keep their score bit-identical; allowed ids outside bounds are ignored.
pub fn apply_mask_cells(scores: &mut Vec<u32>, allowed: &Vec<u32>)
    ensures
        final(scores)@ == masked_seq(old(scores)@, allowed@),
{
    let ghost orig = scores@;
    let n = scores.len();
    let mut keep: Vec<bool> = Vec::new();
    let mut i: usize = 0;
    while i < n
        invariant
            i <= n,
            keep@.len() == i as int,
            forall|q: int| 0 <= q < i ==> !keep@[q],
        decreases n - i,
    {
        keep.push(false);
        i += 1;
    }
    let mut j: usize = 0;
    while j < allowed.len()
        invariant
            j <= allowed@.len(),
            keep@.len() == n as int,
            forall|q: int|
                0 <= q < n ==> keep@[q] == has_token(allowed@.subrange(0, j as int), q),
        decreases allowed@.len() - j,
    {
        let a = allowed[j];
        let ghost pre = allowed@.subrange(0, j as int);
        let ghost post = allowed@.subrange(0, (j + 1) as int);
        proof {
            assert(post =~= pre.push(allowed@[j as int]));
        }
        if (a as usize) < n {
            keep[a as usize] = true;
        }
        proof {
            assert forall|q: int| 0 <= q < n implies keep@[q] == has_token(post, q) by {
                lemma_has_token_push(pre, allowed@[j as int], q);
            }
        }
        j += 1;
    }
    proof {
        assert(allowed@.subrange(0, allowed@.len() as int) =~= allowed@);
    }
    let mut x: usize = 0;
    while x < n
        invariant
            x <= n,
            n == orig.len(),
            scores@.len() == n as int,
            keep@.len() == n as int,
            forall|q: int| 0 <= q < n ==> keep@[q] == has_token(allowed@, q),
            forall|q: int| 0 <= q < x ==> scores@[q] == masked_seq(orig, allowed@)[q],
            forall|q: int| x <= q < n ==> scores@[q] == orig[q],
        decreases n - x,
    {
        if !keep[x] {
            scores[x] = SCORE_NEG_INF_BITS;
        }
        x += 1;
    }
    proof {
        assert(scores@ =~= masked_seq(orig, allowed@));
    }
}

// ---------------------------------------------------------------------------
// Laws
// ---------------------------------------------------------------------------

/// A penalty of `1.0` yields bit-identical scores, for any score vector,
/// history and window.
pub proof fn lemma_penalty_one_is_noop(scores: Seq<u32>, history: Seq<u32>, w: nat)
    ensures
        penalized_seq(scores, history, SCORE_ONE_BITS, w) == scores,
{
}

/// For a token id present in the penalty window and a penalty other than
/// `1.0`: a positive score becomes its quotient by the penalty, any other
/// score becomes its product with the penalty; an absent token id keeps its
/// score.
pub proof fn lemma_penalty_direction(
    scores: Seq<u32>,
    history: Seq<u32>,
    penalty: u32,
    w: nat,
    i: int,
)
    requires
        penalty != SCORE_ONE_BITS,
        0 <= i < scores.len(),
    ensures
        has_token(penalty_window(history, w), i) && score_is_positive(scores[i])
            ==> penalized_seq(scores, history, penalty, w)[i] == score_div(scores[i], penalty),
        has_token(penalty_window(history, w), i) && !score_is_positive(scores[i])
            ==> penalized_seq(scores, history, penalty, w)[i] == score_mul(scores[i], penalty),
        !has_token(penalty_window(history, w), i) ==> penalized_seq(scores, history, penalty, w)[i]
            == scores[i],
{
}

/// After constraint masking, every token id outside the allowed set has the
/// minimum representable score, and every allowed token id keeps its score
/// unchanged.
pub proof fn lemma_mask_exclusive(scores: Seq<u32>, allowed: Seq<u32>, i: int)
    requires
        0 <= i < scores.len(),
    ensures
        has_token(allowed, i) ==> masked_seq(scores, allowed)[i] == scores[i],
        !has_token(allowed, i) ==> masked_seq(scores, allowed)[i] == SCORE_NEG_INF_BITS,
{
}

} // verus!
