//! The token-level finite-state constraint automaton.
//!
//! The automaton maps a state to the set of tokens legal from it and maps a
//! state and an emitted token to the next state. It is immutable after
//! construction and shared read-only between controllers through a
//! reference-counted handle.

use std::sync::Arc;
use vstd::prelude::*;

verus! {

/// One state of a constraint automaton.
pub struct AutomatonState {
    /// The token ids legal from this state. `None` means the state itself
    /// denotes unconditional completion; an empty list means no further
    /// token is legal (the grammar is exhausted).
    pub allowed: Option<Vec<u32>>,
    /// Pairs of token id and next state id; the first matching pair decides,
    /// and a token without a pair has no next state.
    pub transitions: Vec<(u32, u32)>,
}

/// A token-level finite-state automaton over a fixed vocabulary. A state is
/// named by its index in `states`; a state id out of range behaves as a
/// state that denotes unconditional completion.
pub struct ConstraintAutomaton {
    pub initial: u32,
    pub states: Vec<AutomatonState>,
}

/// The next state that a transition table gives for `t`: the first matching
/// pair decides.
pub open spec fn lookup_transition(trs: Seq<(u32, u32)>, t: u32) -> Option<u32>
    decreases trs.len(),
{
    if trs.len() == 0 {
        None
    } else if trs[0].0 == t {
        Some(trs[0].1)
    } else {
        lookup_transition(trs.drop_first(), t)
    }
}

impl ConstraintAutomaton {
    /// The tokens legal from state `s`, or `None` when the state denotes
    /// unconditional completion.
    pub open spec fn allowed_spec(self, s: u32) -> Option<Seq<u32>> {
        if (s as int) < self.states@.len() {
            match self.states@[s as int].allowed {
                Some(v) => Some(v@),
                None => None,
            }
        } else {
            None
        }
    }

    /// The state reached from state `s` on token `t`, if any.
    pub open spec fn next_spec(self, s: u32, t: u32) -> Option<u32> {
        if (s as int) < self.states@.len() {
            lookup_transition(self.states@[s as int].transitions@, t)
        } else {
            None
        }
    }

    /// The state generation starts from.
    pub fn initial_state(&self) -> (r: u32)
        ensures
            r == self.initial,
    {
        self.initial
    }

    /// The tokens legal from state `state`, or `None` when the state
    /// denotes unconditional completion.
    pub fn allowed_tokens(&self, state: u32) -> (r: Option<&Vec<u32>>)
        ensures
            match r {
                Some(v) => self.allowed_spec(state) == Some(v@),
                None => self.allowed_spec(state) is None,
            },
    {
        if (state as usize) < self.states.len() {
            match &self.states[state as usize].allowed {
                Some(v) => Some(v),
                None => None,
            }
        } else {
            None
        }
    }

    /// The state reached from `state` on `token`, if any.
    pub fn next_state(&self, state: u32, token: u32) -> (r: Option<u32>)
        ensures
            r == self.next_spec(state, token),
    {
        if (state as usize) >= self.states.len() {
            return None;
        }
        let trs = &self.states[state as usize].transitions;
        proof {
            assert(trs@.skip(0) =~= trs@);
        }
        let mut j: usize = 0;
        while j < trs.len()
            invariant
                j <= trs@.len(),
                (state as int) < self.states@.len(),
                trs@ == self.states@[state as int].transitions@,
                lookup_transition(trs@, token) == lookup_transition(trs@.skip(j as int), token),
            decreases trs@.len() - j,
        {
            let pair = trs[j];
            proof {
                assert(pair == trs@[j as int]);
                assert(trs@.skip(j as int)[0] == trs@[j as int]);
                assert(trs@.skip(j as int).drop_first() =~= trs@.skip(j as int + 1));
            }
            if pair.0 == token {
                proof {
                    assert(lookup_transition(trs@.skip(j as int), token) == Some(
                        trs@[j as int].1,
                    ));
                }
                return Some(pair.1);
            }
            j += 1;
        }
        proof {
            assert(trs@.skip(j as int) =~= Seq::<(u32, u32)>::empty());
        }
        None
    }
}

/// Whether `allowed` is non-empty and holds no token but `t`: read as a
/// set, it is exactly the singleton `{t}`.
pub open spec fn only_token(allowed: Seq<u32>, t: u32) -> bool {
    allowed.len() > 0 && forall|j: int| 0 <= j < allowed.len() ==> allowed[j] == t
}

/// Executable form of `only_token`.
pub fn allowed_only(allowed: &Vec<u32>, t: u32) -> (r: bool)
    ensures
        r == only_token(allowed@, t),
{
    if allowed.len() == 0 {
        return false;
    }
    let mut j: usize = 0;
    while j < allowed.len()
        invariant
            j <= allowed@.len(),
            forall|q: int| 0 <= q < j ==> allowed@[q] == t,
        decreases allowed@.len() - j,
    {
        if allowed[j] != t {
            return false;
        }
        j += 1;
    }
    true
}

/// Whether an allowed-token answer denotes a completed constraint: the
/// answer is absent (unconditional completion), the set is empty (the
/// grammar is exhausted), or the set is exactly the singleton holding the
/// configured EOS token.
pub open spec fn allowed_answer_satisfies(allowed: Option<Seq<u32>>, eos: Option<u32>) -> bool {
    match allowed {
        None => true,
        Some(a) => a.len() == 0 || (eos matches Some(e) && only_token(a, e)),
    }
}

/// Whether an allowed-token answer leaves no legal continuation at all: the
/// answer is absent or the set is empty. Unlike `allowed_answer_satisfies`
/// this does not treat a singleton EOS set as final.
pub open spec fn allowed_answer_exhausted(allowed: Option<Seq<u32>>) -> bool {
    match allowed {
        None => true,
        Some(a) => a.len() == 0,
    }
}

/// A shared, reference-counted handle to a compiled constraint automaton.
/// Compiling a schema or a regular expression into the automaton is the
/// construction subsystem's work and lives with the host layer; the
/// controller only consumes the compiled automaton.
pub struct StructuredConstraint {
    pub index: Arc<ConstraintAutomaton>,
}

impl StructuredConstraint {
    /// Wraps a compiled automaton in a shareable handle.
    pub fn new(index: Arc<ConstraintAutomaton>) -> (r: Self)
        ensures
            r.index == index,
    {
        StructuredConstraint { index }
    }
}

/// An allowed set holding exactly the EOS token completes the constraint;
/// a two-element allowed set that merely includes EOS must not.
pub proof fn lemma_singleton_eos_vs_open_set(eos: u32, other: u32)
    requires
        other != eos,
    ensures
        allowed_answer_satisfies(Some(seq![eos]), Some(eos)),
        !allowed_answer_satisfies(Some(seq![eos, other]), Some(eos)),
{
    assert(seq![eos][0] == eos);
    assert(seq![eos, other][1] == other);
}

} // verus!
