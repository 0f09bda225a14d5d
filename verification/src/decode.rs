//! Decoding instruction definitions into the instruction set.
//!
//! A script definition carries each instruction as a bag of optional fields;
//! the variant is inferred from which fields are present.  The field sets of
//! the variants are mutually exclusive by construction of the format, and
//! this module makes that explicit: each variant has a required-field
//! predicate, the predicates are tried in a fixed priority order, and a
//! definition whose field set satisfies none of them, or more than one, is
//! rejected rather than guessed at.

use vstd::prelude::*;

use crate::script::Action;
use crate::script::ActionV;
use crate::script::AddQuest;
use crate::script::AddQuestV;
use crate::script::Animation;
use crate::script::AnimationV;
use crate::script::Blurp;
use crate::script::BlurpV;
use crate::script::Choice;
use crate::script::ChoiceOption;
use crate::script::ChoiceOptionV;
use crate::script::ChoiceV;
use crate::script::Cue;
use crate::script::CueV;
use crate::script::End;
use crate::script::EndV;
use crate::script::Jump;
use crate::script::JumpV;
use crate::script::OfferTopics;
use crate::script::OfferTopicsV;
use crate::script::ScriptItem;
use crate::script::ScriptItemV;
use crate::script::Scripts;
use crate::script::choice_options_view;
use crate::script::distinct_names;
use crate::script::items_view;
use crate::script::scripts_map;

verus! {

// ---------------------------------------------------------------------------
// Raw instruction definitions
// ---------------------------------------------------------------------------

/// One instruction as it stands in a script definition: every field of every
/// variant, each optional.  Which variant it denotes is decided by
/// [`decode`].
#[derive(Debug, PartialEq)]
pub struct RawInstruction {
    pub action: Option<String>,
    pub add_quest_script: Option<String>,
    pub add_quest_name: Option<String>,
    pub animation: Option<String>,
    pub character: Option<String>,
    pub text: Option<String>,
    pub annotation: Option<String>,
    pub wait: Option<u64>,
    pub cue: Option<String>,
    pub choice: Option<Vec<ChoiceOption>>,
    pub end: Option<String>,
    pub jump: Option<String>,
    pub offer_topics: Option<String>,
    pub exit: Option<bool>,
}

pub ghost struct RawInstructionV {
    pub action: Option<Seq<char>>,
    pub add_quest_script: Option<Seq<char>>,
    pub add_quest_name: Option<Seq<char>>,
    pub animation: Option<Seq<char>>,
    pub character: Option<Seq<char>>,
    pub text: Option<Seq<char>>,
    pub annotation: Option<Seq<char>>,
    pub wait: Option<u64>,
    pub cue: Option<Seq<char>>,
    pub choice: Option<Seq<ChoiceOptionV>>,
    pub end: Option<Seq<char>>,
    pub jump: Option<Seq<char>>,
    pub offer_topics: Option<Seq<char>>,
    pub exit: Option<bool>,
}

pub open spec fn string_opt_view(o: Option<String>) -> Option<Seq<char>> {
    match o {
        Some(s) => Some(s@),
        None => None,
    }
}

impl View for RawInstruction {
    type V = RawInstructionV;

    open spec fn view(&self) -> RawInstructionV {
        RawInstructionV {
            action: string_opt_view(self.action),
            add_quest_script: string_opt_view(self.add_quest_script),
            add_quest_name: string_opt_view(self.add_quest_name),
            animation: string_opt_view(self.animation),
            character: string_opt_view(self.character),
            text: string_opt_view(self.text),
            annotation: string_opt_view(self.annotation),
            wait: self.wait,
            cue: string_opt_view(self.cue),
            choice: match self.choice {
                Some(options) => Some(choice_options_view(options@)),
                None => None,
            },
            end: string_opt_view(self.end),
            jump: string_opt_view(self.jump),
            offer_topics: string_opt_view(self.offer_topics),
            exit: self.exit,
        }
    }
}

impl Default for RawInstruction {
    /// A definition with no fields at all.
    fn default() -> (res: Self)
        ensures
            res.action is None,
            res.add_quest_script is None,
            res.add_quest_name is None,
            res.animation is None,
            res.character is None,
            res.text is None,
            res.annotation is None,
            res.wait is None,
            res.cue is None,
            res.choice is None,
            res.end is None,
            res.jump is None,
            res.offer_topics is None,
            res.exit is None,
    {
        RawInstruction {
            action: None,
            add_quest_script: None,
            add_quest_name: None,
            animation: None,
            character: None,
            text: None,
            annotation: None,
            wait: None,
            cue: None,
            choice: None,
            end: None,
            jump: None,
            offer_topics: None,
            exit: None,
        }
    }
}

// ---------------------------------------------------------------------------
// Required-field predicates, one per variant
// ---------------------------------------------------------------------------

pub open spec fn action_shape(r: RawInstructionV) -> bool {
    r.action is Some
}

pub open spec fn add_quest_shape(r: RawInstructionV) -> bool {
    r.add_quest_script is Some && r.add_quest_name is Some
}

pub open spec fn animation_shape(r: RawInstructionV) -> bool {
    r.animation is Some
}

pub open spec fn blurp_shape(r: RawInstructionV) -> bool {
    r.character is Some && r.text is Some
}

pub open spec fn choice_shape(r: RawInstructionV) -> bool {
    r.choice is Some
}

pub open spec fn cue_shape(r: RawInstructionV) -> bool {
    r.cue is Some
}

pub open spec fn end_shape(r: RawInstructionV) -> bool {
    r.end is Some
}

pub open spec fn jump_shape(r: RawInstructionV) -> bool {
    r.jump is Some
}

pub open spec fn offer_topics_shape(r: RawInstructionV) -> bool {
    r.offer_topics is Some && r.exit is Some
}

/// How many of the nine variant shapes a definition satisfies.
pub open spec fn shape_count(r: RawInstructionV) -> int {
    (if action_shape(r) {
        1int
    } else {
        0
    }) + (if add_quest_shape(r) {
        1int
    } else {
        0
    }) + (if animation_shape(r) {
        1int
    } else {
        0
    }) + (if blurp_shape(r) {
        1int
    } else {
        0
    }) + (if choice_shape(r) {
        1int
    } else {
        0
    }) + (if cue_shape(r) {
        1int
    } else {
        0
    }) + (if end_shape(r) {
        1int
    } else {
        0
    }) + (if jump_shape(r) {
        1int
    } else {
        0
    }) + (if offer_topics_shape(r) {
        1int
    } else {
        0
    })
}

/// Why an instruction definition was rejected.
#[derive(Debug, Clone, Copy, PartialEq, Eq, Structural)]
pub enum DecodeError {
    /// No variant's required fields are all present.
    NoShape,
    /// More than one variant's required fields are present.
    ManyShapes,
}

/// The meaning of an instruction definition: the unique variant whose
/// required fields are present, tried in the fixed priority order of the
/// instruction set, or the reason there is no such variant.
pub open spec fn spec_decode(r: RawInstructionV) -> Result<ScriptItemV, DecodeError> {
    if shape_count(r) == 0 {
        Err(DecodeError::NoShape)
    } else if shape_count(r) >= 2 {
        Err(DecodeError::ManyShapes)
    } else if action_shape(r) {
        Ok(ScriptItemV::Action(ActionV { action: r.action.unwrap() }))
    } else if add_quest_shape(r) {
        Ok(
            ScriptItemV::AddQuest(
                AddQuestV {
                    add_quest_script: r.add_quest_script.unwrap(),
                    add_quest_name: r.add_quest_name.unwrap(),
                },
            ),
        )
    } else if animation_shape(r) {
        Ok(ScriptItemV::Animation(AnimationV { animation: r.animation.unwrap() }))
    } else if blurp_shape(r) {
        Ok(
            ScriptItemV::Blurp(
                BlurpV {
                    character: r.character.unwrap(),
                    text: r.text.unwrap(),
                    annotation: r.annotation,
                    wait: r.wait,
                },
            ),
        )
    } else if choice_shape(r) {
        Ok(ScriptItemV::Choice(ChoiceV { choice: r.choice.unwrap() }))
    } else if cue_shape(r) {
        Ok(ScriptItemV::Cue(CueV { cue: r.cue.unwrap() }))
    } else if end_shape(r) {
        Ok(ScriptItemV::End(EndV { end: r.end.unwrap() }))
    } else if jump_shape(r) {
        Ok(ScriptItemV::Jump(JumpV { jump: r.jump.unwrap() }))
    } else {
        Ok(
            ScriptItemV::OfferTopics(
                OfferTopicsV {
                    offer_topics: r.offer_topics.unwrap(),
                    exit: r.exit.unwrap(),
                },
            ),
        )
    }
}

/// The view of a decode result.
pub open spec fn decoded_view(r: Result<ScriptItem, DecodeError>) -> Result<
    ScriptItemV,
    DecodeError,
> {
    match r {
        Ok(item) => Ok(item@),
        Err(e) => Err(e),
    }
}

/// Decides which instruction variant a definition denotes.
///
/// Each variant's required-field predicate is tried in the fixed priority
/// order of the instruction set; decoding fails if none of them holds, or
/// more than one.
/// How many of the nine variant shapes are present in a definition.
fn shape_count_of(raw: &RawInstruction) -> (c: usize)
    ensures
        c == shape_count(raw@),
{
    let mut count: usize = 0;
    if raw.action.is_some() {
        count = count + 1;
    }
    if raw.add_quest_script.is_some() && raw.add_quest_name.is_some() {
        count = count + 1;
    }
    if raw.animation.is_some() {
        count = count + 1;
    }
    if raw.character.is_some() && raw.text.is_some() {
        count = count + 1;
    }
    if raw.choice.is_some() {
        count = count + 1;
    }
    if raw.cue.is_some() {
        count = count + 1;
    }
    if raw.end.is_some() {
        count = count + 1;
    }
    if raw.jump.is_some() {
        count = count + 1;
    }
    if raw.offer_topics.is_some() && raw.exit.is_some() {
        count = count + 1;
    }
    count
}

#[verifier::rlimit(100)]
pub fn decode(raw: &RawInstruction) -> (r: Result<ScriptItem, DecodeError>)
    ensures
        decoded_view(r) == spec_decode(raw@),
{
    let count = shape_count_of(raw);
    if count == 0 {
        return Err(DecodeError::NoShape);
    }
    if count >= 2 {
        return Err(DecodeError::ManyShapes);
    }
    if let Some(a) = &raw.action {
        return Ok(ScriptItem::Action(Action { action: a.clone() }));
    }
    if raw.add_quest_script.is_some() && raw.add_quest_name.is_some() {
        let script = raw.add_quest_script.as_ref().unwrap().clone();
        let name = raw.add_quest_name.as_ref().unwrap().clone();
        return Ok(
            ScriptItem::AddQuest(AddQuest { add_quest_script: script, add_quest_name: name }),
        );
    }
    if let Some(a) = &raw.animation {
        return Ok(ScriptItem::Animation(Animation { animation: a.clone() }));
    }
    if raw.character.is_some() && raw.text.is_some() {
        let character = raw.character.as_ref().unwrap().clone();
        let text = raw.text.as_ref().unwrap().clone();
        let annotation = match &raw.annotation {
            Some(a) => Some(a.clone()),
            None => None,
        };
        let wait = match &raw.wait {
            Some(w) => Some(*w),
            None => None,
        };
        return Ok(ScriptItem::Blurp(Blurp { character, text, annotation, wait }));
    }
    if let Some(options) = &raw.choice {
        let copied = options.clone();
        proof {
            assert(copied@ =~= options@);
        }
        return Ok(ScriptItem::Choice(Choice { choice: copied }));
    }
    if let Some(c) = &raw.cue {
        return Ok(ScriptItem::Cue(Cue { cue: c.clone() }));
    }
    if let Some(e) = &raw.end {
        return Ok(ScriptItem::End(End { end: e.clone() }));
    }
    if let Some(j) = &raw.jump {
        return Ok(ScriptItem::Jump(Jump { jump: j.clone() }));
    }
    let offer = raw.offer_topics.as_ref().unwrap().clone();
    let exit = *raw.exit.as_ref().unwrap();
    Ok(ScriptItem::OfferTopics(OfferTopics { offer_topics: offer, exit }))
}

// ---------------------------------------------------------------------------
// The canonical definition of an instruction, and the round trip
// ---------------------------------------------------------------------------

/// The canonical definition of an instruction: exactly the fields of its
/// variant, nothing else.
pub open spec fn spec_encode(item: ScriptItemV) -> RawInstructionV {
    let empty = RawInstructionV {
        action: None,
        add_quest_script: None,
        add_quest_name: None,
        animation: None,
        character: None,
        text: None,
        annotation: None,
        wait: None,
        cue: None,
        choice: None,
        end: None,
        jump: None,
        offer_topics: None,
        exit: None,
    };
    match item {
        ScriptItemV::Action(p) => RawInstructionV { action: Some(p.action), ..empty },
        ScriptItemV::AddQuest(p) => RawInstructionV {
            add_quest_script: Some(p.add_quest_script),
            add_quest_name: Some(p.add_quest_name),
            ..empty
        },
        ScriptItemV::Animation(p) => RawInstructionV { animation: Some(p.animation), ..empty },
        ScriptItemV::Blurp(p) => RawInstructionV {
            character: Some(p.character),
            text: Some(p.text),
            annotation: p.annotation,
            wait: p.wait,
            ..empty
        },
        ScriptItemV::Choice(p) => RawInstructionV { choice: Some(p.choice), ..empty },
        ScriptItemV::Cue(p) => RawInstructionV { cue: Some(p.cue), ..empty },
        ScriptItemV::End(p) => RawInstructionV { end: Some(p.end), ..empty },
        ScriptItemV::Jump(p) => RawInstructionV { jump: Some(p.jump), ..empty },
        ScriptItemV::OfferTopics(p) => RawInstructionV {
            offer_topics: Some(p.offer_topics),
            exit: Some(p.exit),
            ..empty
        },
    }
}

/// The variant field sets are mutually exclusive: the canonical definition
/// of any instruction satisfies exactly one shape predicate, and decoding it
/// yields the instruction back.
pub proof fn lemma_decode_encode_roundtrip(item: ScriptItemV)
    ensures
        shape_count(spec_encode(item)) == 1,
        spec_decode(spec_encode(item)) == Ok::<ScriptItemV, DecodeError>(item),
{
}

// ---------------------------------------------------------------------------
// Loading a whole definition
// ---------------------------------------------------------------------------

/// Why a script definition could not be loaded.
#[derive(Debug, PartialEq)]
pub enum LoadError {
    /// A script name appears more than once.
    DuplicateScript { script: String },
    /// An instruction definition matches no shape, or several.
    BadInstruction { script: String, index: usize, error: DecodeError },
}

/// Every instruction definition decodes.
pub open spec fn all_decode(def: Seq<(String, Vec<RawInstruction>)>) -> bool {
    forall|i: int, j: int|
        0 <= i < def.len() && 0 <= j < def[i].1@.len() ==> spec_decode(#[trigger] def[i].1@[j]@)
            is Ok
}

/// No two entries of a definition share a script name.
pub open spec fn def_distinct_names(def: Seq<(String, Vec<RawInstruction>)>) -> bool {
    forall|i: int, j: int| 0 <= i < j < def.len() ==> def[i].0@ != def[j].0@
}

/// The decoded instructions of one script definition, in order.
pub open spec fn decoded_items(raws: Seq<RawInstruction>) -> Seq<ScriptItemV> {
    raws.map_values(|r: RawInstruction| spec_decode(r@).unwrap())
}

/// The map described by a whole definition, once every instruction decodes:
/// each script name bound to its decoded instructions, later entries winning.
pub open spec fn loaded_map(def: Seq<(String, Vec<RawInstruction>)>) -> Map<
    Seq<char>,
    Seq<ScriptItemV>,
>
    decreases def.len(),
{
    if def.len() == 0 {
        Map::empty()
    } else {
        loaded_map(def.drop_last()).insert(def.last().0@, decoded_items(def.last().1@))
    }
}

/// Entry lists that agree pointwise describe the same map.
proof fn lemma_loaded_map_agrees(
    entries: Seq<(String, Vec<ScriptItem>)>,
    def: Seq<(String, Vec<RawInstruction>)>,
)
    requires
        entries.len() == def.len(),
        forall|k: int|
            0 <= k < def.len() ==> (#[trigger] entries[k].0)@ == def[k].0@ && items_view(
                entries[k].1@,
            ) == decoded_items(def[k].1@),
    ensures
        scripts_map(entries) == loaded_map(def),
    decreases def.len(),
{
    if def.len() > 0 {
        lemma_loaded_map_agrees(entries.drop_last(), def.drop_last());
        assert(entries.last().0@ == def.last().0@);
        assert(items_view(entries.last().1@) == decoded_items(def.last().1@));
    }
}

/// With distinct names, each definition entry is found intact under its own
/// name.
proof fn lemma_loaded_map_index(def: Seq<(String, Vec<RawInstruction>)>, i: int)
    requires
        def_distinct_names(def),
        0 <= i < def.len(),
    ensures
        loaded_map(def).contains_key(def[i].0@),
        loaded_map(def)[def[i].0@] == decoded_items(def[i].1@),
    decreases def.len(),
{
    if i == def.len() - 1 {
    } else {
        let dl = def.drop_last();
        assert(def_distinct_names(dl)) by {
            assert(forall|p: int, q: int|
                0 <= p < q < dl.len() ==> dl[p].0@ == def[p].0@ && dl[q].0@ == def[q].0@);
        }
        lemma_loaded_map_index(dl, i);
        assert(dl[i] == def[i]);
        assert(def.last().0@ != def[i].0@);
    }
}

/// Round trip: a store loaded from a definition with distinct names holds
/// every script intact — looking each script up by its name yields exactly
/// the decoded instructions of its definition, in their original order.
pub proof fn lemma_load_round_trip(def: Seq<(String, Vec<RawInstruction>)>)
    requires
        def_distinct_names(def),
    ensures
        forall|i: int|
            0 <= i < def.len() ==> loaded_map(def).contains_key((#[trigger] def[i]).0@)
                && loaded_map(def)[def[i].0@] == decoded_items(def[i].1@),
{
    assert forall|i: int| 0 <= i < def.len() implies loaded_map(def).contains_key(
        (#[trigger] def[i]).0@,
    ) && loaded_map(def)[def[i].0@] == decoded_items(def[i].1@) by {
        lemma_loaded_map_index(def, i);
    }
}

/// Builds the script store from a definition.
///
/// Succeeds exactly when every instruction definition decodes and the script
/// names are distinct; the store then holds each script's decoded
/// instructions, in their original order, under its name.
pub fn load(def: Vec<(String, Vec<RawInstruction>)>) -> (r: Result<Scripts, LoadError>)
    ensures
        r is Ok <==> all_decode(def@) && def_distinct_names(def@),
        (match r {
            Ok(s) => s@ == loaded_map(def@),
            Err(LoadError::DuplicateScript { script }) => exists|i: int, j: int|
                0 <= i < j < def@.len() && def@[i].0@ == script@ && def@[j].0@ == script@,
            Err(LoadError::BadInstruction { script, index, error }) => exists|i: int|
                0 <= i < def@.len() && def@[i].0@ == script@ && index < def@[i].1@.len()
                    && spec_decode(def@[i].1@[index as int]@) == Err::<ScriptItemV, DecodeError>(
                    error,
                ),
        }),
{
    let ghost gdef = def@;
    let n = def.len();
    let mut entries: Vec<(String, Vec<ScriptItem>)> = Vec::new();
    let mut i: usize = 0;
    while i < n
        invariant
            n == gdef.len(),
            def@ == gdef,
            i <= n,
            entries@.len() == i,
            forall|k: int|
                0 <= k < i ==> (#[trigger] entries@[k]).0@ == gdef[k].0@ && items_view(
                    entries@[k].1@,
                ) == decoded_items(gdef[k].1@),
            forall|k: int, l: int|
                0 <= k < i && 0 <= l < gdef[k].1@.len() ==> spec_decode(
                    #[trigger] gdef[k].1@[l]@,
                ) is Ok,
        decreases n - i,
    {
        let name = def[i].0.clone();
        let m = def[i].1.len();
        let mut items: Vec<ScriptItem> = Vec::new();
        let mut j: usize = 0;
        while j < m
            invariant
                def@ == gdef,
                i < gdef.len(),
                m == gdef[i as int].1@.len(),
                name@ == gdef[i as int].0@,
                j <= m,
                items@.len() == j,
                items_view(items@) == decoded_items(gdef[i as int].1@.take(j as int)),
                forall|l: int|
                    0 <= l < j ==> spec_decode(#[trigger] gdef[i as int].1@[l]@) is Ok,
            decreases m - j,
        {
            let ghost raws = gdef[i as int].1@;
            let raw = &def[i].1[j];
            proof {
                assert(*raw == raws[j as int]);
            }
            match decode(raw) {
                Ok(item) => {
                    let ghost gitem = item;
                    let ghost before = items@;
                    items.push(item);
                    proof {
                        let after = items@;
                        assert(after == before.push(gitem));
                        assert forall|l: int| 0 <= l < after.len() implies after[l]@
                            == decoded_items(raws.take(j as int + 1))[l] by {
                            assert(raws.take(j as int + 1)[l] == raws[l]);
                            if l < j as int {
                                assert(after[l] == before[l]);
                                assert(before[l]@ == items_view(before)[l]);
                                assert(items_view(before)[l] == decoded_items(
                                    raws.take(j as int),
                                )[l]);
                                assert(raws.take(j as int)[l] == raws[l]);
                            } else {
                                assert(after[l] == gitem);
                                assert(spec_decode(raws[j as int]@) == Ok::<
                                    ScriptItemV,
                                    DecodeError,
                                >(gitem@));
                            }
                        }
                        assert(items_view(after) =~= decoded_items(raws.take(j as int + 1)));
                    }
                },
                Err(e) => {
                    return Err(LoadError::BadInstruction { script: name, index: j, error: e });
                },
            }
            j = j + 1;
        }
        proof {
            assert(gdef[i as int].1@.take(m as int) =~= gdef[i as int].1@);
        }
        entries.push((name, items));
        i = i + 1;
    }
    proof {
        lemma_loaded_map_agrees(entries@, gdef);
    }
    match Scripts::from_entries(entries) {
        Ok(s) => {
            proof {
                assert forall|i0: int, j0: int| 0 <= i0 < j0 < gdef.len() implies gdef[i0].0@
                    != gdef[j0].0@ by {
                    assert(entries@[i0].0@ == gdef[i0].0@);
                    assert(entries@[j0].0@ == gdef[j0].0@);
                }
            }
            Ok(s)
        },
        Err(d) => {
            proof {
                let (i0, j0) = choose|i0: int, j0: int|
                    0 <= i0 < j0 < entries@.len() && entries@[i0].0@ == d.script@
                        && entries@[j0].0@ == d.script@;
                assert(entries@[i0].0@ == gdef[i0].0@);
                assert(entries@[j0].0@ == gdef[j0].0@);
                assert(gdef[i0].0@ == d.script@ && gdef[j0].0@ == d.script@);
            }
            Err(LoadError::DuplicateScript { script: d.script })
        },
    }
}

} // verus!
