//! The decoding controller: per-step state for one generation sequence.
//!
//! Control flow per step: raw scores, then repetition penalty, then
//! constraint mask, then one sampler draw; the drawn token is appended to
//! the history, the automaton advances, and the completion latch and stop
//! predicates are re-evaluated.

use crate::automaton::allowed_answer_exhausted;
use crate::automaton::allowed_answer_satisfies;
use crate::automaton::allowed_only;
use crate::automaton::ConstraintAutomaton;
use crate::engine::sampler_draw;
use crate::engine::tensor_cells;
use crate::engine::tensor_is_score_vec;
use crate::engine::tensor_like_with_cells;
use crate::engine::tensor_to_cells;
use crate::scores::apply_mask_cells;
use crate::scores::apply_penalty_cells;
use crate::scores::has_token;
use crate::scores::masked_seq;
use crate::scores::penalized_seq;
use crate::scores::score_is_positive;
use crate::scores::SCORE_NEG_INF_BITS;
use crate::scores::SCORE_ONE_BITS;
use candle_transformers::generation::LogitsProcessor;
use std::sync::Arc;
use vstd::prelude::*;

verus! {

/// A failure of one decoding step. Not locally recoverable; the step that
/// reports it has not appended a token.
pub enum DecodeError {
    /// The numeric engine rejected the score vector (shape, element type
    /// or device mismatch).
    Engine(candle_core::Error),
    /// The score vector holds no entries at all, so there is nothing to
    /// draw from.
    EmptyScores,
}

/// Whether `suffix` is a suffix of `text`.
pub open spec fn is_suffix_of(suffix: Seq<char>, text: Seq<char>) -> bool {
    suffix.len() <= text.len() && text.subrange(text.len() - suffix.len(), text.len() as int)
        == suffix
}

/// Relies on `str::ends_with`: true exactly when the text's character
/// sequence ends with the given suffix.
#[verifier::external_body]
fn str_ends_with(text: &str, suffix: &str) -> (r: bool)
    ensures
        r == is_suffix_of(suffix@, text@),
{
    text.ends_with(suffix)
}

/// The decoding controller for one generation sequence: it owns the token
/// history, the penalty parameters, the optional constraint binding with
/// its automaton state, and the sampler handle.
pub struct TextGeneration {
    logits_processor: LogitsProcessor,
    tokens: Vec<u32>,
    eos_token_id: Option<u32>,
    repetition_penalty: u32,
    repetition_penalty_last_n: usize,
    constraint: Option<Arc<ConstraintAutomaton>>,
    constraint_state: Option<u32>,
    constraint_completed: bool,
    tokens_since_constraint_start: usize,
}

impl TextGeneration {
    /// The emitted token history, in generation order.
    pub closed spec fn history(self) -> Seq<u32> {
        self.tokens@
    }

    /// The configured end-of-sequence token, if any.
    pub closed spec fn eos_token(self) -> Option<u32> {
        self.eos_token_id
    }

    /// The repetition penalty, as the bit pattern of a single-precision
    /// value; `1.0` disables the penalty exactly.
    pub closed spec fn penalty(self) -> u32 {
        self.repetition_penalty
    }

    /// How many of the most recent history tokens the penalty considers.
    pub closed spec fn penalty_last_n(self) -> usize {
        self.repetition_penalty_last_n
    }

    /// The bound constraint automaton, if any.
    pub closed spec fn automaton(self) -> Option<ConstraintAutomaton> {
        match self.constraint {
            Some(c) => Some(*c),
            None => None,
        }
    }

    /// The current automaton state; absent either when no constraint is
    /// bound or when the automaton itself declared completion.
    pub closed spec fn automaton_state(self) -> Option<u32> {
        self.constraint_state
    }

    /// The completion latch: set once, never cleared except by rebinding.
    pub closed spec fn completed(self) -> bool {
        self.constraint_completed
    }

    /// The history length at the moment the constraint was bound.
    pub closed spec fn anchor(self) -> usize {
        self.tokens_since_constraint_start
    }

    /// The automaton state after one step that emitted `token`.
    pub open spec fn next_state_after(self, token: u32) -> Option<u32> {
        match (self.automaton(), self.automaton_state()) {
            (Some(c), Some(s)) => c.next_spec(s, token),
            _ => self.automaton_state(),
        }
    }

    /// Whether the post-transition state latches completion: the automaton
    /// declared completion, or its allowed set is absent, empty, or exactly
    /// the singleton EOS set.
    pub open spec fn latch_candidate(c: ConstraintAutomaton, next: Option<u32>, eos: Option<u32>) -> bool {
        match next {
            None => true,
            Some(ns) => allowed_answer_satisfies(c.allowed_spec(ns), eos),
        }
    }

    /// The completion latch after one step that emitted `token`: it stays
    /// set, and it newly sets only when a constraint is bound, at least one
    /// token has been generated since the anchor, and the post-transition
    /// state latches.
    pub open spec fn completed_after(self, token: u32) -> bool {
        self.completed() || match (self.automaton(), self.automaton_state()) {
            (Some(c), Some(s)) => self.history().len() + 1 > self.anchor()
                && Self::latch_candidate(c, c.next_spec(s, token), self.eos_token()),
            _ => false,
        }
    }

    /// A raw score vector after the two per-step adjustments: first the
    /// repetition penalty with the controller's own parameters, then — when
    /// a constraint is bound, its state is present and that state has an
    /// allowed set — the constraint mask, so that the penalty can never
    /// resurrect a grammatically forbidden token.
    pub open spec fn prepared_seq(self, raw: Seq<u32>) -> Seq<u32> {
        let pen = penalized_seq(raw, self.history(), self.penalty(), self.penalty_last_n() as nat);
        match (self.automaton(), self.automaton_state()) {
            (Some(c), Some(s)) => match c.allowed_spec(s) {
                Some(a) => masked_seq(pen, a),
                None => pen,
            },
            _ => pen,
        }
    }

    /// Whether the constraint is satisfied: the latch is set, or the
    /// current state independently satisfies the absent/empty/singleton-EOS
    /// condition.
    pub open spec fn satisfied_spec(self) -> bool {
        self.completed() || match (self.automaton(), self.automaton_state()) {
            (Some(c), Some(s)) => allowed_answer_satisfies(c.allowed_spec(s), self.eos_token()),
            _ => false,
        }
    }

    /// Whether the generation loop must halt now: the history has reached
    /// `max_length`, or the step emitted the EOS token, or a constraint is
    /// bound and its current state is absent or allows no token at all.
    pub open spec fn should_stop_spec(self, token: u32, max_length: usize) -> bool {
        self.history().len() >= max_length || (self.eos_token() matches Some(e) && token == e)
            || match (self.automaton(), self.automaton_state()) {
            (Some(_), None) => true,
            (Some(c), Some(s)) => allowed_answer_exhausted(c.allowed_spec(s)),
            _ => false,
        }
    }

    /// Builds a controller. A constraint supplied here is bound through the
    /// same operation used for rebinding. The penalty is a positive scalar
    /// (`1.0` disabling it exactly): a non-positive or NaN pattern is a
    /// configuration error, rejected here at construction rather than
    /// carried into decoding.
    pub fn new(
        logits_processor: LogitsProcessor,
        repetition_penalty: u32,
        repetition_penalty_last_n: usize,
        constraint: Option<Arc<ConstraintAutomaton>>,
    ) -> (r: Self)
        requires
            score_is_positive(repetition_penalty),
        ensures
            r.history() == Seq::<u32>::empty(),
            r.eos_token() is None,
            r.penalty() == repetition_penalty,
            r.penalty_last_n() == repetition_penalty_last_n,
            (match constraint {
                Some(c) => r.automaton() == Some(*c) && r.automaton_state() == Some(c.initial),
                None => r.automaton() is None && r.automaton_state() is None,
            }),
            !r.completed(),
            r.anchor() == 0,
    {
        let mut text_gen = TextGeneration {
            logits_processor,
            tokens: Vec::new(),
            eos_token_id: None,
            repetition_penalty,
            repetition_penalty_last_n,
            constraint: None,
            constraint_state: None,
            constraint_completed: false,
            tokens_since_constraint_start: 0,
        };
        if let Some(c) = constraint {
            text_gen.set_constraint(c);
        }
        text_gen
    }

    /// Configures the end-of-sequence token.
    pub fn set_eos_token_id(&mut self, eos_token_id: u32)
        ensures
            final(self).eos_token() == Some(eos_token_id),
            final(self).history() == old(self).history(),
            final(self).penalty() == old(self).penalty(),
            final(self).penalty_last_n() == old(self).penalty_last_n(),
            final(self).automaton() == old(self).automaton(),
            final(self).automaton_state() == old(self).automaton_state(),
            final(self).completed() == old(self).completed(),
            final(self).anchor() == old(self).anchor(),
    {
        self.eos_token_id = Some(eos_token_id);
    }

    /// Replaces the token history.
    pub fn set_tokens(&mut self, tokens: Vec<u32>)
        ensures
            final(self).history() == tokens@,
            final(self).eos_token() == old(self).eos_token(),
            final(self).penalty() == old(self).penalty(),
            final(self).penalty_last_n() == old(self).penalty_last_n(),
            final(self).automaton() == old(self).automaton(),
            final(self).automaton_state() == old(self).automaton_state(),
            final(self).completed() == old(self).completed(),
            final(self).anchor() == old(self).anchor(),
    {
        self.tokens = tokens;
    }

    /// The token history so far.
    pub fn get_tokens(&self) -> (r: &[u32])
        ensures
            r@ == self.history(),
    {
        self.tokens.as_slice()
    }

    /// Appends one token to the history.
    pub fn push_token(&mut self, token: u32)
        ensures
            final(self).history() == old(self).history().push(token),
            final(self).eos_token() == old(self).eos_token(),
            final(self).penalty() == old(self).penalty(),
            final(self).penalty_last_n() == old(self).penalty_last_n(),
            final(self).automaton() == old(self).automaton(),
            final(self).automaton_state() == old(self).automaton_state(),
            final(self).completed() == old(self).completed(),
            final(self).anchor() == old(self).anchor(),
    {
        self.tokens.push(token);
    }

    /// Binds (or rebinds) a constraint: the automaton state starts over
    /// from the initial state, the completion latch clears, and the anchor
    /// records the current history length.
    pub fn set_constraint(&mut self, constraint: Arc<ConstraintAutomaton>)
        ensures
            final(self).automaton() == Some(*constraint),
            final(self).automaton_state() == Some(constraint.initial),
            !final(self).completed(),
            final(self).anchor() == old(self).history().len(),
            final(self).history() == old(self).history(),
            final(self).eos_token() == old(self).eos_token(),
            final(self).penalty() == old(self).penalty(),
            final(self).penalty_last_n() == old(self).penalty_last_n(),
    {
        self.constraint_state = Some(constraint.initial_state());
        self.constraint = Some(constraint);
        self.constraint_completed = false;
        self.tokens_since_constraint_start = self.tokens.len();
    }

    /// Applies the repetition penalty to the given scores: over the window
    /// of the `context_size` most recent history tokens, each distinct
    /// token id within vocabulary bounds is penalized exactly once — a
    /// positive score is divided by the penalty, any other score multiplied
    /// by it. A penalty of `1.0` leaves the tensor untouched. On a score
    /// vector the call succeeds; an engine failure leaves the tensor
    /// untouched and is reported.
    pub fn apply_repetition_penalty(
        &self,
        logits: &mut candle_core::Tensor,
        penalty: u32,
        context_size: usize,
    ) -> (r: Result<(), DecodeError>)
        ensures
            tensor_is_score_vec(*old(logits)) ==> r is Ok,
            penalty == SCORE_ONE_BITS ==> r is Ok && *final(logits) == *old(logits),
            r is Ok ==> tensor_cells(*final(logits)) == penalized_seq(
                tensor_cells(*old(logits)),
                self.history(),
                penalty,
                context_size as nat,
            ),
            r is Err ==> *final(logits) == *old(logits),
    {
        if penalty == SCORE_ONE_BITS {
            return Ok(());
        }
        let mut cells = match tensor_to_cells(logits) {
            Ok(c) => c,
            Err(e) => {
                return Err(DecodeError::Engine(e));
            },
        };
        apply_penalty_cells(&mut cells, &self.tokens, penalty, context_size);
        match tensor_like_with_cells(&cells, logits) {
            Ok(t) => {
                *logits = t;
                Ok(())
            },
            Err(e) => Err(DecodeError::Engine(e)),
        }
    }

    /// Applies the two per-step score adjustments in place: the repetition
    /// penalty with the controller's own parameters, then the constraint
    /// mask when one applies.
    pub fn prepare_scores(&self, cells: &mut Vec<u32>)
        ensures
            final(cells)@ == self.prepared_seq(old(cells)@),
    {
        apply_penalty_cells(
            cells,
            &self.tokens,
            self.repetition_penalty,
            self.repetition_penalty_last_n,
        );
        match (&self.constraint, &self.constraint_state) {
            (Some(c), Some(s)) => {
                if let Some(allowed) = c.allowed_tokens(*s) {
                    apply_mask_cells(cells, allowed);
                }
            },
            _ => {},
        }
    }

    /// One decoding step: applies the repetition penalty and then, when a
    /// constraint is bound and its state has an allowed set, the constraint
    /// mask; hands the result to the sampler; appends the drawn token to
    /// the history; advances the automaton on it and updates the completion
    /// latch from the post-transition state. An engine failure propagates
    /// and leaves the history, the automaton state and the latch
    /// untouched, and an empty score vector is refused before the draw:
    /// there is nothing to sample from.
    pub fn sample_next_token(&mut self, logits: &candle_core::Tensor) -> (r: Result<
        u32,
        DecodeError,
    >)
        ensures
            tensor_is_score_vec(*logits) && tensor_cells(*logits).len() == 0 ==> (r matches Err(e)
                && e is EmptyScores),
            final(self).penalty() == old(self).penalty(),
            final(self).penalty_last_n() == old(self).penalty_last_n(),
            final(self).eos_token() == old(self).eos_token(),
            final(self).automaton() == old(self).automaton(),
            final(self).anchor() == old(self).anchor(),
            old(self).completed() ==> final(self).completed(),
            (match r {
                Ok(token) => final(self).history() == old(self).history().push(token)
                    && final(self).automaton_state() == old(self).next_state_after(token)
                    && final(self).completed() == old(self).completed_after(token),
                Err(_) => final(self).history() == old(self).history()
                    && final(self).automaton_state() == old(self).automaton_state()
                    && final(self).completed() == old(self).completed(),
            }),
    {
        let mut cells = match tensor_to_cells(logits) {
            Ok(c) => c,
            Err(e) => {
                return Err(DecodeError::Engine(e));
            },
        };
        if cells.len() == 0 {
            return Err(DecodeError::EmptyScores);
        }
        self.prepare_scores(&mut cells);
        let masked = match tensor_like_with_cells(&cells, logits) {
            Ok(t) => t,
            Err(e) => {
                return Err(DecodeError::Engine(e));
            },
        };
        let next_token = match sampler_draw(&mut self.logits_processor, &masked) {
            Ok(t) => t,
            Err(e) => {
                return Err(DecodeError::Engine(e));
            },
        };
        let mut new_state = self.constraint_state;
        let mut new_completed = self.constraint_completed;
        match (&self.constraint, &self.constraint_state) {
            (Some(c), Some(s)) => {
                let next = c.next_state(*s, next_token);
                if !self.constraint_completed && self.tokens.len()
                    >= self.tokens_since_constraint_start {
                    let latch = match next {
                        None => true,
                        Some(ns) => match c.allowed_tokens(ns) {
                            None => true,
                            Some(allowed) => {
                                if allowed.len() == 0 {
                                    true
                                } else {
                                    match self.eos_token_id {
                                        Some(eos) => allowed_only(allowed, eos),
                                        None => false,
                                    }
                                }
                            },
                        },
                    };
                    if latch {
                        new_completed = true;
                    }
                }
                new_state = next;
            },
            _ => {},
        }
        self.tokens.push(next_token);
        self.constraint_state = new_state;
        self.constraint_completed = new_completed;
        Ok(next_token)
    }

    /// The decision both satisfaction predicates share.
    fn satisfied_now(&self) -> (r: bool)
        ensures
            r == self.satisfied_spec(),
    {
        if self.constraint_completed {
            return true;
        }
        match (&self.constraint, &self.constraint_state) {
            (Some(c), Some(s)) => match c.allowed_tokens(*s) {
                Some(allowed) => {
                    if allowed.len() == 0 {
                        true
                    } else {
                        match self.eos_token_id {
                            Some(eos) => allowed_only(allowed, eos),
                            None => false,
                        }
                    }
                },
                None => true,
            },
            _ => false,
        }
    }

    /// Whether the constraint has reached a valid completion: the latch is
    /// set, or the current state's allowed set is absent, empty, or exactly
    /// the singleton EOS set.
    pub fn is_constraint_satisfied(&self) -> (r: bool)
        ensures
            r == self.satisfied_spec(),
    {
        self.satisfied_now()
    }

    /// The same decision as `is_constraint_satisfied`, kept as a separate
    /// named predicate so call sites can distinguish the opportunistic
    /// "may stop" reading from the mandatory "must stop" one.
    pub fn is_constraint_satisfied_stop_on_match(&self) -> (r: bool)
        ensures
            r == self.satisfied_spec(),
    {
        self.satisfied_now()
    }

    /// Whether generation must halt now, given the token the step just
    /// emitted and the length bound.
    pub fn should_stop(&self, token: u32, max_length: usize) -> (r: bool)
        ensures
            r == self.should_stop_spec(token, max_length),
    {
        if self.tokens.len() >= max_length {
            return true;
        }
        if let Some(eos) = self.eos_token_id {
            if token == eos {
                return true;
            }
        }
        match (&self.constraint, &self.constraint_state) {
            (Some(c), Some(s)) => match c.allowed_tokens(*s) {
                Some(allowed) => allowed.len() == 0,
                None => true,
            },
            (Some(_), None) => true,
            _ => false,
        }
    }

    /// Whether the produced text ends with any of the given stop strings.
    pub fn check_stop_sequences(&self, text: &str, stop_sequences: &[String]) -> (r: bool)
        ensures
            r == exists|i: int|
                0 <= i < stop_sequences@.len() && is_suffix_of(stop_sequences@[i]@, text@),
    {
        let mut i: usize = 0;
        while i < stop_sequences.len()
            invariant
                i <= stop_sequences@.len(),
                forall|q: int| 0 <= q < i ==> !is_suffix_of(stop_sequences@[q]@, text@),
            decreases stop_sequences@.len() - i,
        {
            if str_ends_with(text, stop_sequences[i].as_str()) {
                return true;
            }
            i += 1;
        }
        false
    }
}

/// The mask runs strictly after the penalty: whatever the penalty did to a
/// grammatically forbidden token, the prepared scores leave it at the
/// minimum representable score, and an allowed token carries exactly its
/// post-penalty score.
pub proof fn lemma_penalty_never_resurrects_forbidden(
    tg: TextGeneration,
    raw: Seq<u32>,
    i: int,
)
    requires
        0 <= i < raw.len(),
        (match (tg.automaton(), tg.automaton_state()) {
            (Some(c), Some(s)) => c.allowed_spec(s) is Some,
            _ => false,
        }),
    ensures
        (match (tg.automaton(), tg.automaton_state()) {
            (Some(c), Some(s)) => {
                let a = c.allowed_spec(s)->Some_0;
                let pen = penalized_seq(raw, tg.history(), tg.penalty(), tg.penalty_last_n() as nat);
                &&& !has_token(a, i) ==> tg.prepared_seq(raw)[i]
                    == SCORE_NEG_INF_BITS
                &&& has_token(a, i) ==> tg.prepared_seq(raw)[i] == pen[i]
            },
            _ => true,
        }),
{
}

/// Once the completion latch is set, the controller reports the constraint
/// satisfied.
pub proof fn lemma_latch_implies_satisfied(tg: TextGeneration)
    requires
        tg.completed(),
    ensures
        tg.satisfied_spec(),
{
}

/// The completion latch is monotonic: a step never clears it, whatever
/// token it emits.
pub proof fn lemma_latch_monotone(tg: TextGeneration, token: u32)
    requires
        tg.completed(),
    ensures
        tg.completed_after(token),
{
}

/// If a constraint is bound and its current state is absent or allows no
/// token at all, generation must stop, regardless of the length bound and
/// of the EOS configuration.
pub proof fn lemma_stop_on_exhaustion(tg: TextGeneration, token: u32, max_length: usize)
    requires
        tg.automaton() is Some,
        (match (tg.automaton(), tg.automaton_state()) {
            (Some(c), Some(s)) => allowed_answer_exhausted(c.allowed_spec(s)),
            (Some(_), None) => true,
            _ => false,
        }),
    ensures
        tg.should_stop_spec(token, max_length),
{
}

} // verus!
