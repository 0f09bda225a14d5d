//! The interpreter: advances a cursor through the script store.
//!
//! One invocation executes instructions from the cursor onwards.  Silent
//! instructions fall through; a jump transfers control to the start of its
//! target script within the same invocation; a dialogue line or a choice set
//! is terminal: it is emitted and the invocation returns a cursor pointing
//! at the following instruction.  Running off a script's end, or jumping to
//! an unregistered script, ends the run with no resumable cursor.
//!
//! Well-formed content never needs more jumps in one invocation than there
//! are scripts: a jump always enters its target at instruction zero, so a
//! run that enters the same script twice by jump repeats itself forever.
//! The interpreter therefore budgets one jump per registered script and
//! reports an error-class diagnostic when the budget is exhausted, which
//! bounds every invocation.

use vstd::prelude::*;

use crate::script::ChoiceOption;
use crate::script::ChoiceOptionV;
use crate::script::ScriptItem;
use crate::script::ScriptItemV;
use crate::script::Scripts;

verus! {

/// The view of a script store: script names to instruction views.
pub type StoreV = Map<Seq<char>, Seq<ScriptItemV>>;

// ---------------------------------------------------------------------------
// The cursor
// ---------------------------------------------------------------------------

/// A resumable position: the current script and the zero-based index of the
/// next instruction to execute.  Owned by the caller between invocations.
#[derive(Debug, PartialEq)]
pub struct ScriptPos {
    pub script: String,
    pub index: usize,
}

pub ghost struct ScriptPosV {
    pub script: Seq<char>,
    pub index: int,
}

impl View for ScriptPos {
    type V = ScriptPosV;

    open spec fn view(&self) -> ScriptPosV {
        ScriptPosV { script: self.script@, index: self.index as int }
    }
}

// ---------------------------------------------------------------------------
// Emissions
// ---------------------------------------------------------------------------

/// An observable side-effect request directed at the caller: something to
/// display, or a log line.  The run's diagnostics are structured values;
/// their severity is given by [`Emission::is_error`] and
/// [`Emission::is_informational`].
#[derive(Debug, PartialEq)]
pub enum Emission {
    /// Display a dialogue line; terminal for the invocation.  Character,
    /// annotation and wait (milliseconds) are metadata for the display
    /// boundary, not interpreted here.
    ShowText { character: String, text: String, annotation: Option<String>, wait: Option<u64> },
    /// Present an ordered list of choices; terminal for the invocation.
    OfferChoices { options: Vec<ChoiceOption> },
    /// A jump was taken: informational log.
    JumpTaken { from_script: String, from_index: usize, to_script: String },
    /// Traversal ran off the script's end (or the script is unregistered):
    /// informational log; the conversation is over.
    RanOffEnd { script: String, index: usize },
    /// A jump named an unregistered script: error log; malformed content.
    BrokenJump { from_script: String, from_index: usize, target: String },
    /// The jump budget was exhausted, which only cyclic content can cause:
    /// error log.
    JumpLimit { from_script: String, from_index: usize, target: String },
}

pub ghost enum EmissionV {
    ShowText {
        character: Seq<char>,
        text: Seq<char>,
        annotation: Option<Seq<char>>,
        wait: Option<u64>,
    },
    OfferChoices { options: Seq<ChoiceOptionV> },
    JumpTaken { from_script: Seq<char>, from_index: int, to_script: Seq<char> },
    RanOffEnd { script: Seq<char>, index: int },
    BrokenJump { from_script: Seq<char>, from_index: int, target: Seq<char> },
    JumpLimit { from_script: Seq<char>, from_index: int, target: Seq<char> },
}

impl View for Emission {
    type V = EmissionV;

    open spec fn view(&self) -> EmissionV {
        match self {
            Emission::ShowText { character, text, annotation, wait } => EmissionV::ShowText {
                character: character@,
                text: text@,
                annotation: match annotation {
                    Some(a) => Some(a@),
                    None => None,
                },
                wait: *wait,
            },
            Emission::OfferChoices { options } => EmissionV::OfferChoices {
                options: crate::script::choice_options_view(options@),
            },
            Emission::JumpTaken { from_script, from_index, to_script } => EmissionV::JumpTaken {
                from_script: from_script@,
                from_index: *from_index as int,
                to_script: to_script@,
            },
            Emission::RanOffEnd { script, index } => EmissionV::RanOffEnd {
                script: script@,
                index: *index as int,
            },
            Emission::BrokenJump { from_script, from_index, target } => EmissionV::BrokenJump {
                from_script: from_script@,
                from_index: *from_index as int,
                target: target@,
            },
            Emission::JumpLimit { from_script, from_index, target } => EmissionV::JumpLimit {
                from_script: from_script@,
                from_index: *from_index as int,
                target: target@,
            },
        }
    }
}

/// Display requests: what a run stops at.
pub open spec fn is_output(e: EmissionV) -> bool {
    e is ShowText || e is OfferChoices
}

/// Error-class diagnostics: malformed content.
pub open spec fn is_error_diagnostic(e: EmissionV) -> bool {
    e is BrokenJump || e is JumpLimit
}

/// Informational diagnostics: normal end states and jump logs.
pub open spec fn is_informational_diagnostic(e: EmissionV) -> bool {
    e is JumpTaken || e is RanOffEnd
}

impl Emission {
    /// Whether this emission is a display request.
    pub fn is_output(&self) -> (r: bool)
        ensures
            r == is_output(self@),
    {
        match self {
            Emission::ShowText { .. } => true,
            Emission::OfferChoices { .. } => true,
            _ => false,
        }
    }

    /// Whether this emission is an error-class diagnostic.
    pub fn is_error(&self) -> (r: bool)
        ensures
            r == is_error_diagnostic(self@),
    {
        match self {
            Emission::BrokenJump { .. } => true,
            Emission::JumpLimit { .. } => true,
            _ => false,
        }
    }

    /// Whether this emission is an informational diagnostic.
    pub fn is_informational(&self) -> (r: bool)
        ensures
            r == is_informational_diagnostic(self@),
    {
        match self {
            Emission::JumpTaken { .. } => true,
            Emission::RanOffEnd { .. } => true,
            _ => false,
        }
    }
}

// ---------------------------------------------------------------------------
// The mathematical model of one invocation
// ---------------------------------------------------------------------------

/// What one invocation returns: its emissions, in order, and the resumable
/// cursor, if any.
pub ghost struct RunV {
    pub emissions: Seq<EmissionV>,
    pub next: Option<ScriptPosV>,
}

/// Instructions left in the current script; measures traversal progress.
pub open spec fn step_measure(store: StoreV, script: Seq<char>, index: int) -> int {
    if store.contains_key(script) && 0 <= index <= store[script].len() {
        store[script].len() - index
    } else {
        0
    }
}

/// The meaning of one invocation started at `(script, index)` with `budget`
/// jumps left: the emissions it produces and the cursor it returns.
pub open spec fn run(store: StoreV, script: Seq<char>, index: int, budget: nat) -> RunV
    decreases budget, step_measure(store, script, index),
{
    if !store.contains_key(script) || index < 0 || index >= store[script].len() {
        RunV { emissions: seq![EmissionV::RanOffEnd { script, index }], next: None }
    } else {
        match store[script][index] {
            ScriptItemV::Blurp(b) => RunV {
                emissions: seq![
                    EmissionV::ShowText {
                        character: b.character,
                        text: b.text,
                        annotation: b.annotation,
                        wait: b.wait,
                    },
                ],
                next: Some(ScriptPosV { script, index: index + 1 }),
            },
            ScriptItemV::Choice(c) => RunV {
                emissions: seq![EmissionV::OfferChoices { options: c.choice }],
                next: Some(ScriptPosV { script, index: index + 1 }),
            },
            ScriptItemV::Jump(jp) => {
                if store.contains_key(jp.jump) {
                    if budget == 0 {
                        RunV {
                            emissions: seq![
                                EmissionV::JumpLimit {
                                    from_script: script,
                                    from_index: index,
                                    target: jp.jump,
                                },
                            ],
                            next: None,
                        }
                    } else {
                        let rest = run(store, jp.jump, 0, (budget - 1) as nat);
                        RunV {
                            emissions: seq![
                                EmissionV::JumpTaken {
                                    from_script: script,
                                    from_index: index,
                                    to_script: jp.jump,
                                },
                            ] + rest.emissions,
                            next: rest.next,
                        }
                    }
                } else {
                    RunV {
                        emissions: seq![
                            EmissionV::BrokenJump {
                                from_script: script,
                                from_index: index,
                                target: jp.jump,
                            },
                        ],
                        next: None,
                    }
                }
            },
            _ => run(store, script, index + 1, budget),
        }
    }
}

/// The view of an emission list.
pub open spec fn emissions_view(s: Seq<Emission>) -> Seq<EmissionV> {
    s.map_values(|e: Emission| e@)
}

/// The view of an optional cursor.
pub open spec fn next_view(o: Option<ScriptPos>) -> Option<ScriptPosV> {
    match o {
        Some(p) => Some(p@),
        None => None,
    }
}

// ---------------------------------------------------------------------------
// Laws of the model
// ---------------------------------------------------------------------------

/// Every invocation emits at least once, and it returns a cursor exactly
/// when it stopped at a display request: the last emission is then a
/// dialogue line or a choice set, and a run that ends for any other reason
/// returns no cursor.  The traversal itself is finite: `run` is total, and
/// the interpreter's loop carries the same decreasing measure.
pub proof fn lemma_run_stops_at_output(store: StoreV, script: Seq<char>, index: int, budget: nat)
    ensures
        run(store, script, index, budget).emissions.len() > 0,
        run(store, script, index, budget).next is Some <==> is_output(
            run(store, script, index, budget).emissions.last(),
        ),
    decreases budget, step_measure(store, script, index),
{
    if !store.contains_key(script) || index < 0 || index >= store[script].len() {
    } else {
        match store[script][index] {
            ScriptItemV::Blurp(_) => {},
            ScriptItemV::Choice(_) => {},
            ScriptItemV::Jump(jp) => {
                if store.contains_key(jp.jump) && budget > 0 {
                    lemma_run_stops_at_output(store, jp.jump, 0, (budget - 1) as nat);
                }
            },
            _ => {
                lemma_run_stops_at_output(store, script, index + 1, budget);
            },
        }
    }
}

/// A jump whose target exists resumes traversal at index 0 of the target
/// within the same invocation; the jump itself contributes only an
/// informational log entry, never a display request.
pub proof fn lemma_jump_enters_target(
    store: StoreV,
    script: Seq<char>,
    index: int,
    budget: nat,
    target: Seq<char>,
)
    requires
        store.contains_key(script),
        0 <= index < store[script].len(),
        store[script][index] == ScriptItemV::Jump(crate::script::JumpV { jump: target }),
        store.contains_key(target),
        budget > 0,
    ensures
        run(store, script, index, budget).emissions == seq![
            EmissionV::JumpTaken { from_script: script, from_index: index, to_script: target },
        ] + run(store, target, 0, (budget - 1) as nat).emissions,
        run(store, script, index, budget).next == run(store, target, 0, (budget - 1) as nat).next,
        is_informational_diagnostic(
            EmissionV::JumpTaken { from_script: script, from_index: index, to_script: target },
        ),
{
}

/// A jump to an unregistered script ends the run at once: no cursor, and a
/// single error-class diagnostic, not an informational one.
pub proof fn lemma_broken_jump_stops(
    store: StoreV,
    script: Seq<char>,
    index: int,
    budget: nat,
    target: Seq<char>,
)
    requires
        store.contains_key(script),
        0 <= index < store[script].len(),
        store[script][index] == ScriptItemV::Jump(crate::script::JumpV { jump: target }),
        !store.contains_key(target),
    ensures
        run(store, script, index, budget) == (RunV {
            emissions: seq![
                EmissionV::BrokenJump { from_script: script, from_index: index, target },
            ],
            next: None,
        }),
        is_error_diagnostic(
            EmissionV::BrokenJump { from_script: script, from_index: index, target },
        ),
        !is_informational_diagnostic(
            EmissionV::BrokenJump { from_script: script, from_index: index, target },
        ),
{
}

/// Looking up a position at or past the script's end (or in an unregistered
/// script) ends the run at once: no cursor, and a single informational
/// diagnostic, not an error-class one.
pub proof fn lemma_off_the_end_stops(store: StoreV, script: Seq<char>, index: int, budget: nat)
    requires
        !store.contains_key(script) || index >= store[script].len() || index < 0,
    ensures
        run(store, script, index, budget) == (RunV {
            emissions: seq![EmissionV::RanOffEnd { script, index }],
            next: None,
        }),
        is_informational_diagnostic(EmissionV::RanOffEnd { script, index }),
        !is_error_diagnostic(EmissionV::RanOffEnd { script, index }),
{
}

// ---------------------------------------------------------------------------
// The interpreter
// ---------------------------------------------------------------------------

/// Executes instructions starting at `pos` until a dialogue line or choice
/// set is emitted, a jump fails or exceeds the budget, or the script runs
/// off its end.  Returns the emissions, in order, and the resumable cursor,
/// if the run stopped at a display request.
#[verifier::loop_isolation(false)]
pub fn advance(pos: &ScriptPos, scripts: &Scripts) -> (r: (Vec<Emission>, Option<ScriptPos>))
    ensures
        emissions_view(r.0@) == run(scripts@, pos@.script, pos@.index, scripts@.dom().len()).emissions,
        next_view(r.1) == run(scripts@, pos@.script, pos@.index, scripts@.dom().len()).next,
        r.0@.len() > 0,
        r.1 is Some <==> is_output(r.0@.last()@),
{
    let ghost store = scripts@;
    let ghost goal = run(store, pos@.script, pos@.index, store.dom().len());
    proof {
        lemma_run_stops_at_output(store, pos@.script, pos@.index, store.dom().len());
    }
    let mut current: String = pos.script.clone();
    let mut index: usize = pos.index;
    let mut budget: usize = scripts.script_count();
    let mut out: Vec<Emission> = Vec::new();
    loop
        invariant
            budget as nat <= store.dom().len(),
            goal.emissions == emissions_view(out@) + run(
                store,
                current@,
                index as int,
                budget as nat,
            ).emissions,
            goal.next == run(store, current@, index as int, budget as nat).next,
        decreases budget, step_measure(store, current@, index as int),
    {
        let ghost before = run(store, current@, index as int, budget as nat);
        match scripts.get_item(current.as_str(), index) {
            None => {
                out.push(Emission::RanOffEnd { script: current, index });
                proof {
                    assert(emissions_view(out@) =~= goal.emissions);
                }
                return (out, None);
            },
            Some(item) => {
                match item {
                    ScriptItem::Blurp(b) => {
                        let annotation = match &b.annotation {
                            Some(a) => Some(a.clone()),
                            None => None,
                        };
                        let wait = match &b.wait {
                            Some(w) => Some(*w),
                            None => None,
                        };
                        out.push(
                            Emission::ShowText {
                                character: b.character.clone(),
                                text: b.text.clone(),
                                annotation,
                                wait,
                            },
                        );
                        proof {
                            assert(emissions_view(out@) =~= goal.emissions);
                        }
                        return (out, Some(ScriptPos { script: current, index: index + 1 }));
                    },
                    ScriptItem::Choice(c) => {
                        let options = c.choice.clone();
                        proof {
                            assert(options@ =~= c.choice@);
                        }
                        out.push(Emission::OfferChoices { options });
                        proof {
                            assert(emissions_view(out@) =~= goal.emissions);
                        }
                        return (out, Some(ScriptPos { script: current, index: index + 1 }));
                    },
                    ScriptItem::Jump(jp) => {
                        if scripts.has_script(jp.jump.as_str()) {
                            if budget == 0 {
                                out.push(
                                    Emission::JumpLimit {
                                        from_script: current,
                                        from_index: index,
                                        target: jp.jump.clone(),
                                    },
                                );
                                proof {
                                    assert(emissions_view(out@) =~= goal.emissions);
                                }
                                return (out, None);
                            }
                            out.push(
                                Emission::JumpTaken {
                                    from_script: current.clone(),
                                    from_index: index,
                                    to_script: jp.jump.clone(),
                                },
                            );
                            current = jp.jump.clone();
                            index = 0;
                            budget = budget - 1;
                            proof {
                                assert(goal.emissions =~= emissions_view(out@) + run(
                                    store,
                                    current@,
                                    index as int,
                                    budget as nat,
                                ).emissions);
                            }
                        } else {
                            out.push(
                                Emission::BrokenJump {
                                    from_script: current,
                                    from_index: index,
                                    target: jp.jump.clone(),
                                },
                            );
                            proof {
                                assert(emissions_view(out@) =~= goal.emissions);
                            }
                            return (out, None);
                        }
                    },
                    _ => {
                        index = index + 1;
                    },
                }
            },
        }
    }
}

} // verus!

