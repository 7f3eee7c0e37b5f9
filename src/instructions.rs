use vstd::prelude::*;
use crate::schema::Instruction;
use crate::string_map::string_eq_str;

verus! {

/// The kinds of directive that the executor knows, and the rest.
#[derive(Debug, PartialEq, Eq)]
pub enum Action {
    Ping,
    Execute,
    Print,
    Idle,
    Unsupported(String),
}

/// What the executor asks the world to do for one instruction.
#[derive(Debug, PartialEq, Eq)]
pub enum Effect {
    /// Answer a heartbeat.
    Pong,
    /// Run a shell command line and wait for it.
    RunScript(String),
    /// Write a line to standard output.
    PrintOut(String),
    /// Write a line to standard error.
    PrintErr(String),
    /// Write an empty line to standard output.
    BlankLine,
    /// Report an action that the executor does not know.
    Unsupported(String),
    /// Nothing visible.
    Nothing,
}

/// The kind of the action named `a`.
pub open spec fn action_of(a: String) -> Action {
    if a@ == "ping"@ {
        Action::Ping
    } else if a@ == "execute"@ {
        Action::Execute
    } else if a@ == "print"@ {
        Action::Print
    } else if a@ == "none"@ {
        Action::Idle
    } else {
        Action::Unsupported(a)
    }
}

/// Whether the server marked `i` as failed.
pub open spec fn flagged(i: Instruction) -> bool {
    i.error == Some(true)
}

/// What the executor does for `i`.
pub open spec fn effect_of(i: Instruction) -> Effect {
    match action_of(i.action) {
        Action::Ping => Effect::Pong,
        Action::Execute => match i.content {
            Some(s) => Effect::RunScript(s),
            None => Effect::Nothing,
        },
        Action::Print => match i.content {
            Some(s) => if flagged(i) {
                Effect::PrintErr(s)
            } else {
                Effect::PrintOut(s)
            },
            None => Effect::BlankLine,
        },
        Action::Idle => Effect::Nothing,
        Action::Unsupported(a) => Effect::Unsupported(a),
    }
}

/// Whether `i` counts as a failure of the pass: an `execute` or `print`
/// with content, or a `none`, that the server marked as failed.
pub open spec fn signals_failure(i: Instruction) -> bool {
    match action_of(i.action) {
        Action::Execute => i.content is Some && flagged(i),
        Action::Print => i.content is Some && flagged(i),
        Action::Idle => flagged(i),
        _ => false,
    }
}

/// Whether some instruction of `s` counts as a failure.
pub open spec fn any_failure(s: Seq<Instruction>) -> bool {
    exists|k: int| 0 <= k < s.len() && signals_failure(#[trigger] s[k])
}

/// The outcome of a pass over `s`: failure (code 1) where some instruction
/// counts as a failure, else success.
pub open spec fn outcome_of(s: Seq<Instruction>) -> Result<(), i32> {
    if any_failure(s) {
        Err(1)
    } else {
        Ok(())
    }
}

impl Instruction {
    /// The kind of this instruction's action.
    pub fn action_kind(&self) -> (r: Action)
        ensures
            r == action_of(self.action),
    {
        if string_eq_str(&self.action, "ping") {
            Action::Ping
        } else if string_eq_str(&self.action, "execute") {
            Action::Execute
        } else if string_eq_str(&self.action, "print") {
            Action::Print
        } else if string_eq_str(&self.action, "none") {
            Action::Idle
        } else {
            Action::Unsupported(self.action.clone())
        }
    }

    /// Whether the server marked this instruction as failed.
    pub fn is_flagged(&self) -> (r: bool)
        ensures
            r == flagged(*self),
    {
        match self.error {
            Some(b) => b,
            None => false,
        }
    }
}

/// The state of one pass of the executor: whether a failure has been seen.
pub struct ExecutionState {
    pub has_error: bool,
}

impl ExecutionState {
    /// The state before the first instruction.
    pub fn new() -> (r: ExecutionState)
        ensures
            !r.has_error,
    {
        ExecutionState { has_error: false }
    }

    /// Takes in one instruction: gives what is to be done for it and notes
    /// whether it counts as a failure. A noted failure stays.
    pub fn step(&mut self, instr: &Instruction) -> (r: Effect)
        ensures
            r == effect_of(*instr),
            final(self).has_error == (old(self).has_error || signals_failure(*instr)),
    {
        let flagged = instr.is_flagged();
        match instr.action_kind() {
            Action::Ping => Effect::Pong,
            Action::Execute => match &instr.content {
                Some(s) => {
                    if flagged {
                        self.has_error = true;
                    }
                    Effect::RunScript(s.clone())
                },
                None => Effect::Nothing,
            },
            Action::Print => match &instr.content {
                Some(s) => {
                    if flagged {
                        self.has_error = true;
                        Effect::PrintErr(s.clone())
                    } else {
                        Effect::PrintOut(s.clone())
                    }
                },
                None => Effect::BlankLine,
            },
            Action::Idle => {
                if flagged {
                    self.has_error = true;
                }
                Effect::Nothing
            },
            Action::Unsupported(a) => Effect::Unsupported(a),
        }
    }

    /// The outcome of the pass so far: `Err(1)` once a failure was seen.
    pub fn outcome(&self) -> (r: Result<(), i32>)
        ensures
            r == (if self.has_error {
                Err::<(), i32>(1)
            } else {
                Ok(())
            }),
    {
        if self.has_error {
            Err(1)
        } else {
            Ok(())
        }
    }
}

/// What one pass over a list of instructions does: an effect for each
/// instruction, in order, and the outcome of the whole pass.
#[derive(Debug)]
pub struct ExecutionPlan {
    pub effects: Vec<Effect>,
    pub outcome: Result<(), i32>,
}

/// Walks every instruction in order, failures included, and gives the
/// effect of each and the aggregate outcome.
pub fn plan_instructions(instructions: &[Instruction]) -> (r: ExecutionPlan)
    ensures
        r.effects@.len() == instructions@.len(),
        forall|k: int|
            0 <= k < instructions@.len() ==> r.effects@[k] == effect_of(#[trigger] instructions@[k]),
        r.outcome == outcome_of(instructions@),
{
    let mut state = ExecutionState::new();
    let mut effects: Vec<Effect> = Vec::new();
    let mut i: usize = 0;
    while i < instructions.len()
        invariant
            i <= instructions@.len(),
            effects@.len() == i,
            forall|k: int| 0 <= k < i ==> effects@[k] == effect_of(#[trigger] instructions@[k]),
            state.has_error == any_failure(instructions@.take(i as int)),
        decreases instructions@.len() - i,
    {
        let e = state.step(&instructions[i]);
        effects.push(e);
        proof {
            let s = instructions@;
            let before = s.take(i as int);
            let after = s.take(i + 1);
            if any_failure(before) {
                let k = choose|k: int| 0 <= k < before.len() && signals_failure(#[trigger] before[k]);
                assert(after[k] == before[k]);
            }
            if signals_failure(s[i as int]) {
                assert(after[i as int] == s[i as int]);
            }
            if any_failure(after) {
                let k = choose|k: int| 0 <= k < after.len() && signals_failure(#[trigger] after[k]);
                if k < i {
                    assert(before[k] == after[k]);
                }
            }
        }
        i = i + 1;
    }
    assert(instructions@.take(i as int) =~= instructions@);
    ExecutionPlan { effects, outcome: state.outcome() }
}

/// An unsupported action never changes the outcome of a pass: putting one
/// anywhere into a list of instructions leaves the outcome as it was.
pub proof fn unsupported_action_keeps_outcome(s: Seq<Instruction>, k: int, u: Instruction)
    requires
        0 <= k <= s.len(),
        action_of(u.action) is Unsupported,
    ensures
        outcome_of(s.insert(k, u)) == outcome_of(s),
{
    let t = s.insert(k, u);
    if any_failure(s) {
        let j = choose|j: int| 0 <= j < s.len() && signals_failure(#[trigger] s[j]);
        if j < k {
            assert(t[j] == s[j]);
        } else {
            assert(t[j + 1] == s[j]);
        }
    }
    if any_failure(t) {
        let j = choose|j: int| 0 <= j < t.len() && signals_failure(#[trigger] t[j]);
        if j < k {
            assert(t[j] == s[j]);
        } else if j > k {
            assert(t[j] == s[j - 1]);
        }
    }
}

} // verus!
