//! The script data model: the closed set of instruction variants and the
//! immutable store of named scripts.
//!
//! Every instruction is one of nine shapes, each identified by the fields it
//! carries.  A script is an ordered sequence of instructions; the store maps
//! unique script names to scripts and is read-only after construction.

use vstd::prelude::*;

verus! {

// ---------------------------------------------------------------------------
// Instruction payloads
// ---------------------------------------------------------------------------

/// A silent placeholder for a future side effect; names the action.
#[derive(Debug, Clone, PartialEq)]
pub struct Action {
    pub action: String,
}

/// A silent quest hook: the quest's script name and its display name.
#[derive(Debug, Clone, PartialEq)]
pub struct AddQuest {
    pub add_quest_script: String,
    pub add_quest_name: String,
}

/// A silent animation trigger; names the animation.
#[derive(Debug, Clone, PartialEq)]
pub struct Animation {
    pub animation: String,
}

/// A dialogue line: terminal for one interpreter invocation.  The text is
/// displayed; character, annotation and wait (milliseconds) are forwarded to
/// the display boundary as metadata.
#[derive(Debug, Clone, PartialEq)]
pub struct Blurp {
    pub character: String,
    pub text: String,
    pub annotation: Option<String>,
    pub wait: Option<u64>,
}

/// A silent cue; names the cue.
#[derive(Debug, Clone, PartialEq)]
pub struct Cue {
    pub cue: String,
}

/// One selectable option of a `Choice`: the script to jump to and the label
/// to display.
#[derive(Debug, PartialEq)]
pub struct ChoiceOption {
    pub jump: String,
    pub text: String,
}

/// An ordered list of options to present; terminal for one invocation.
#[derive(Debug, Clone, PartialEq)]
pub struct Choice {
    pub choice: Vec<ChoiceOption>,
}

/// An end marker; the tag is semantically unused and the instruction is
/// silent: traversal simply falls through.
#[derive(Debug, Clone, PartialEq)]
pub struct End {
    pub end: String,
}

/// A control transfer to the start of the named target script.
#[derive(Debug, Clone, PartialEq)]
pub struct Jump {
    pub jump: String,
}

/// A silent topic offer; the exit flag is forwarded, not interpreted.
#[derive(Debug, Clone, PartialEq)]
pub struct OfferTopics {
    pub offer_topics: String,
    pub exit: bool,
}

/// One typed step within a script.
#[derive(Debug, Clone, PartialEq)]
pub enum ScriptItem {
    Action(Action),
    AddQuest(AddQuest),
    Animation(Animation),
    Blurp(Blurp),
    Choice(Choice),
    Cue(Cue),
    End(End),
    Jump(Jump),
    OfferTopics(OfferTopics),
}

// ---------------------------------------------------------------------------
// Mathematical views of the instruction types
// ---------------------------------------------------------------------------

pub ghost struct ActionV {
    pub action: Seq<char>,
}

pub ghost struct AddQuestV {
    pub add_quest_script: Seq<char>,
    pub add_quest_name: Seq<char>,
}

pub ghost struct AnimationV {
    pub animation: Seq<char>,
}

pub ghost struct BlurpV {
    pub character: Seq<char>,
    pub text: Seq<char>,
    pub annotation: Option<Seq<char>>,
    pub wait: Option<u64>,
}

pub ghost struct CueV {
    pub cue: Seq<char>,
}

pub ghost struct ChoiceOptionV {
    pub jump: Seq<char>,
    pub text: Seq<char>,
}

pub ghost struct ChoiceV {
    pub choice: Seq<ChoiceOptionV>,
}

pub ghost struct EndV {
    pub end: Seq<char>,
}

pub ghost struct JumpV {
    pub jump: Seq<char>,
}

pub ghost struct OfferTopicsV {
    pub offer_topics: Seq<char>,
    pub exit: bool,
}

pub ghost enum ScriptItemV {
    Action(ActionV),
    AddQuest(AddQuestV),
    Animation(AnimationV),
    Blurp(BlurpV),
    Choice(ChoiceV),
    Cue(CueV),
    End(EndV),
    Jump(JumpV),
    OfferTopics(OfferTopicsV),
}

impl View for Action {
    type V = ActionV;

    open spec fn view(&self) -> ActionV {
        ActionV { action: self.action@ }
    }
}

impl View for AddQuest {
    type V = AddQuestV;

    open spec fn view(&self) -> AddQuestV {
        AddQuestV {
            add_quest_script: self.add_quest_script@,
            add_quest_name: self.add_quest_name@,
        }
    }
}

impl View for Animation {
    type V = AnimationV;

    open spec fn view(&self) -> AnimationV {
        AnimationV { animation: self.animation@ }
    }
}

impl View for Blurp {
    type V = BlurpV;

    open spec fn view(&self) -> BlurpV {
        BlurpV {
            character: self.character@,
            text: self.text@,
            annotation: match self.annotation {
                Some(a) => Some(a@),
                None => None,
            },
            wait: self.wait,
        }
    }
}

impl View for Cue {
    type V = CueV;

    open spec fn view(&self) -> CueV {
        CueV { cue: self.cue@ }
    }
}

impl View for ChoiceOption {
    type V = ChoiceOptionV;

    open spec fn view(&self) -> ChoiceOptionV {
        ChoiceOptionV { jump: self.jump@, text: self.text@ }
    }
}

/// The view of a list of choice options.
pub open spec fn choice_options_view(options: Seq<ChoiceOption>) -> Seq<ChoiceOptionV> {
    options.map_values(|o: ChoiceOption| o@)
}

impl View for Choice {
    type V = ChoiceV;

    open spec fn view(&self) -> ChoiceV {
        ChoiceV { choice: choice_options_view(self.choice@) }
    }
}

impl View for End {
    type V = EndV;

    open spec fn view(&self) -> EndV {
        EndV { end: self.end@ }
    }
}

impl View for Jump {
    type V = JumpV;

    open spec fn view(&self) -> JumpV {
        JumpV { jump: self.jump@ }
    }
}

impl View for OfferTopics {
    type V = OfferTopicsV;

    open spec fn view(&self) -> OfferTopicsV {
        OfferTopicsV { offer_topics: self.offer_topics@, exit: self.exit }
    }
}

impl View for ScriptItem {
    type V = ScriptItemV;

    open spec fn view(&self) -> ScriptItemV {
        match self {
            ScriptItem::Action(p) => ScriptItemV::Action(p@),
            ScriptItem::AddQuest(p) => ScriptItemV::AddQuest(p@),
            ScriptItem::Animation(p) => ScriptItemV::Animation(p@),
            ScriptItem::Blurp(p) => ScriptItemV::Blurp(p@),
            ScriptItem::Choice(p) => ScriptItemV::Choice(p@),
            ScriptItem::Cue(p) => ScriptItemV::Cue(p@),
            ScriptItem::End(p) => ScriptItemV::End(p@),
            ScriptItem::Jump(p) => ScriptItemV::Jump(p@),
            ScriptItem::OfferTopics(p) => ScriptItemV::OfferTopics(p@),
        }
    }
}

/// The view of one script: the views of its instructions, in order.
pub open spec fn items_view(items: Seq<ScriptItem>) -> Seq<ScriptItemV> {
    items.map_values(|i: ScriptItem| i@)
}

impl Clone for ChoiceOption {
    fn clone(&self) -> (res: Self)
        ensures
            res == *self,
    {
        ChoiceOption { jump: self.jump.clone(), text: self.text.clone() }
    }
}

// ---------------------------------------------------------------------------
// The script store
// ---------------------------------------------------------------------------

/// The name of a script that appears more than once in a definition.
#[derive(Debug, Clone, PartialEq)]
pub struct DuplicateScript {
    pub script: String,
}

/// The map described by an ordered list of named scripts: later entries win,
/// as in repeated insertion.
pub open spec fn scripts_map(
    entries: Seq<(String, Vec<ScriptItem>)>,
) -> Map<Seq<char>, Seq<ScriptItemV>>
    decreases entries.len(),
{
    if entries.len() == 0 {
        Map::empty()
    } else {
        scripts_map(entries.drop_last()).insert(
            entries.last().0@,
            items_view(entries.last().1@),
        )
    }
}

/// No two entries share a script name.
pub open spec fn distinct_names(entries: Seq<(String, Vec<ScriptItem>)>) -> bool {
    forall|i: int, j: int|
        0 <= i < j < entries.len() ==> entries[i].0@ != entries[j].0@
}

/// A key is in the described map exactly when some entry carries it.
pub proof fn lemma_scripts_map_contains(entries: Seq<(String, Vec<ScriptItem>)>, k: Seq<char>)
    ensures
        scripts_map(entries).contains_key(k) <==> (exists|i: int|
            0 <= i < entries.len() && entries[i].0@ == k),
    decreases entries.len(),
{
    if entries.len() == 0 {
    } else {
        lemma_scripts_map_contains(entries.drop_last(), k);
        if entries.last().0@ == k {
            assert(entries[entries.len() - 1].0@ == k);
        } else {
            if exists|i: int| 0 <= i < entries.drop_last().len() && entries.drop_last()[i].0@ == k {
                let i = choose|i: int|
                    0 <= i < entries.drop_last().len() && entries.drop_last()[i].0@ == k;
                assert(entries[i].0@ == k);
            }
            if exists|i: int| 0 <= i < entries.len() && entries[i].0@ == k {
                let i = choose|i: int| 0 <= i < entries.len() && entries[i].0@ == k;
                assert(entries.drop_last()[i].0@ == k);
            }
        }
    }
}

/// With distinct names, each entry is found intact under its own name.
pub proof fn lemma_scripts_map_index(entries: Seq<(String, Vec<ScriptItem>)>, i: int)
    requires
        distinct_names(entries),
        0 <= i < entries.len(),
    ensures
        scripts_map(entries).contains_key(entries[i].0@),
        scripts_map(entries)[entries[i].0@] == items_view(entries[i].1@),
    decreases entries.len(),
{
    if i == entries.len() - 1 {
    } else {
        assert(distinct_names(entries.drop_last())) by {
            assert(forall|p: int, q: int|
                0 <= p < q < entries.drop_last().len() ==> entries.drop_last()[p].0@
                    == entries[p].0@ && entries.drop_last()[q].0@ == entries[q].0@);
        }
        lemma_scripts_map_index(entries.drop_last(), i);
        assert(entries.drop_last()[i] == entries[i]);
        assert(entries.last().0@ != entries[i].0@);
    }
}

/// With distinct names, the described map has exactly one key per entry.
pub proof fn lemma_scripts_map_len(entries: Seq<(String, Vec<ScriptItem>)>)
    requires
        distinct_names(entries),
    ensures
        scripts_map(entries).dom().finite(),
        scripts_map(entries).dom().len() == entries.len(),
    decreases entries.len(),
{
    if entries.len() == 0 {
        assert(scripts_map(entries).dom() =~= Set::<Seq<char>>::empty());
    } else {
        let dl = entries.drop_last();
        assert(distinct_names(dl)) by {
            assert(forall|p: int, q: int|
                0 <= p < q < dl.len() ==> dl[p].0@ == entries[p].0@ && dl[q].0@
                    == entries[q].0@);
        }
        lemma_scripts_map_len(dl);
        lemma_scripts_map_contains(dl, entries.last().0@);
        assert(forall|i: int| 0 <= i < dl.len() ==> dl[i].0@ == entries[i].0@);
        assert(!scripts_map(dl).contains_key(entries.last().0@));
        assert(scripts_map(entries).dom() =~= scripts_map(dl).dom().insert(entries.last().0@));
        vstd::set::axiom_set_insert_finite(scripts_map(dl).dom(), entries.last().0@);
        vstd::set::axiom_set_insert_len(scripts_map(dl).dom(), entries.last().0@);
    }
}

/// Round trip: a store built from a definition with distinct names holds
/// every entry intact — looking each script up by its name yields exactly
/// the instructions of the definition, in their original order.
pub proof fn lemma_store_round_trip(entries: Seq<(String, Vec<ScriptItem>)>)
    requires
        distinct_names(entries),
    ensures
        forall|i: int|
            0 <= i < entries.len() ==> scripts_map(entries).contains_key(
                (#[trigger] entries[i]).0@,
            ) && scripts_map(entries)[entries[i].0@] == items_view(entries[i].1@),
{
    assert forall|i: int| 0 <= i < entries.len() implies scripts_map(entries).contains_key(
        (#[trigger] entries[i]).0@,
    ) && scripts_map(entries)[entries[i].0@] == items_view(entries[i].1@) by {
        lemma_scripts_map_index(entries, i);
    }
}

/// The immutable, in-memory collection of named scripts.  Built once by
/// [`Scripts::from_entries`]; only read afterwards.
pub struct Scripts {
    entries: Vec<(String, Vec<ScriptItem>)>,
}

impl View for Scripts {
    type V = Map<Seq<char>, Seq<ScriptItemV>>;

    closed spec fn view(&self) -> Map<Seq<char>, Seq<ScriptItemV>> {
        scripts_map(self.entries@)
    }
}

impl Default for Scripts {
    /// A store with no scripts.
    fn default() -> (res: Self)
        ensures
            res@ == Map::<Seq<char>, Seq<ScriptItemV>>::empty(),
    {
        Scripts { entries: Vec::new() }
    }
}

/// Equality of two string slices, stated over their character sequences.
pub(crate) fn str_eq(a: &str, b: &str) -> (r: bool)
    ensures
        r == (a@ == b@),
{
    let sa: String = a.to_owned();
    let sb: String = b.to_owned();
    sa == sb
}

impl Scripts {
    #[verifier::type_invariant]
    spec fn wf(self) -> bool {
        distinct_names(self.entries@)
    }

    /// The position of the entry that carries the given name, if any.
    fn find(&self, key: &str) -> (r: Option<usize>)
        ensures
            match r {
                Some(i) => i < self.entries@.len() && self.entries@[i as int].0@ == key@,
                None => forall|i: int|
                    0 <= i < self.entries@.len() ==> self.entries@[i].0@ != key@,
            },
    {
        let n = self.entries.len();
        let mut i: usize = 0;
        while i < n
            invariant
                n == self.entries@.len(),
                i <= n,
                forall|j: int| 0 <= j < i ==> self.entries@[j].0@ != key@,
            decreases n - i,
        {
            if str_eq(self.entries[i].0.as_str(), key) {
                return Some(i);
            }
            i = i + 1;
        }
        None
    }

    /// Builds the store from an ordered definition.  Succeeds exactly when
    /// the script names are distinct; otherwise reports a duplicated name.
    pub fn from_entries(entries: Vec<(String, Vec<ScriptItem>)>) -> (r: Result<
        Scripts,
        DuplicateScript,
    >)
        ensures
            r is Ok <==> distinct_names(entries@),
            (match r {
                Ok(s) => s@ == scripts_map(entries@),
                Err(d) => exists|i: int, j: int|
                    0 <= i < j < entries@.len() && entries@[i].0@ == d.script@
                        && entries@[j].0@ == d.script@,
            }),
    {
        let n = entries.len();
        let mut j: usize = 1;
        while j < n
            invariant
                n == entries@.len(),
                1 <= j || n == 0,
                j <= n || n == 0,
                forall|p: int, q: int| 0 <= p < q < j ==> entries@[p].0@ != entries@[q].0@,
            decreases n - j,
        {
            let mut i: usize = 0;
            while i < j
                invariant
                    j < n == entries@.len(),
                    i <= j,
                    forall|p: int| 0 <= p < i ==> entries@[p].0@ != entries@[j as int].0@,
                decreases j - i,
            {
                if str_eq(entries[i].0.as_str(), entries[j].0.as_str()) {
                    return Err(DuplicateScript { script: entries[j].0.clone() });
                }
                i = i + 1;
            }
            j = j + 1;
        }
        assert(distinct_names(entries@));
        Ok(Scripts { entries })
    }

    /// The instruction list registered under the given name.
    pub fn get(&self, key: &str) -> (r: Option<&Vec<ScriptItem>>)
        ensures
            match r {
                Some(items) => self@.contains_key(key@) && items_view(items@) == self@[key@]
                    && self@[key@].len() <= usize::MAX,
                None => !self@.contains_key(key@),
            },
    {
        proof {
            use_type_invariant(self);
            lemma_scripts_map_contains(self.entries@, key@);
        }
        match self.find(key) {
            Some(i) => {
                let items = &self.entries[i].1;
                proof {
                    lemma_scripts_map_index(self.entries@, i as int);
                    assert(items@.len() == items.len());
                }
                Some(items)
            },
            None => None,
        }
    }

    /// The instruction at a `(script name, index)` position.
    pub fn get_item(&self, key: &str, index: usize) -> (r: Option<&ScriptItem>)
        ensures
            match r {
                Some(item) => self@.contains_key(key@) && index < self@[key@].len() && item@
                    == self@[key@][index as int] && self@[key@].len() <= usize::MAX,
                None => !self@.contains_key(key@) || index >= self@[key@].len(),
            },
    {
        match self.get(key) {
            Some(items) => {
                if index < items.len() {
                    Some(&items[index])
                } else {
                    None
                }
            },
            None => None,
        }
    }

    /// Whether a script of the given name is registered.
    pub fn has_script(&self, script: &str) -> (r: bool)
        ensures
            r == self@.contains_key(script@),
    {
        proof {
            use_type_invariant(self);
            lemma_scripts_map_contains(self.entries@, script@);
        }
        self.find(script).is_some()
    }

    /// The number of registered scripts.
    pub fn script_count(&self) -> (n: usize)
        ensures
            n == self@.dom().len(),
            self@.dom().finite(),
    {
        proof {
            use_type_invariant(self);
            lemma_scripts_map_len(self.entries@);
        }
        self.entries.len()
    }

    /// The registered script names, each exactly once.
    pub fn keys(&self) -> (r: Vec<String>)
        ensures
            r@.len() == self@.dom().len(),
            forall|i: int| 0 <= i < r@.len() ==> self@.contains_key(#[trigger] r@[i]@),
            forall|i: int, j: int| 0 <= i < j < r@.len() ==> r@[i]@ != r@[j]@,
            forall|k: Seq<char>|
                self@.contains_key(k) ==> exists|i: int| 0 <= i < r@.len() && r@[i]@ == k,
    {
        proof {
            use_type_invariant(self);
            lemma_scripts_map_len(self.entries@);
        }
        let n = self.entries.len();
        let mut r: Vec<String> = Vec::new();
        let mut i: usize = 0;
        while i < n
            invariant
                n == self.entries@.len(),
                i <= n,
                r@.len() == i,
                distinct_names(self.entries@),
                forall|j: int| 0 <= j < i ==> r@[j]@ == self.entries@[j].0@,
            decreases n - i,
        {
            r.push(self.entries[i].0.clone());
            i = i + 1;
        }
        proof {
            assert forall|i2: int| 0 <= i2 < r@.len() implies self@.contains_key(
                #[trigger] r@[i2]@,
            ) by {
                lemma_scripts_map_index(self.entries@, i2);
            }
            assert forall|k: Seq<char>| self@.contains_key(k) implies exists|i2: int|
                0 <= i2 < r@.len() && r@[i2]@ == k by {
                lemma_scripts_map_contains(self.entries@, k);
                let i2 = choose|i2: int|
                    0 <= i2 < self.entries@.len() && self.entries@[i2].0@ == k;
                assert(r@[i2]@ == k);
            }
        }
        r
    }
}

impl Default for ScriptItem {
    /// The default instruction is an inert end marker with an empty tag.
    fn default() -> (res: Self)
        ensures
            res@ == ScriptItemV::End(EndV { end: Seq::<char>::empty() }),
    {
        ScriptItem::End(End { end: String::new() })
    }
}

} // verus!
