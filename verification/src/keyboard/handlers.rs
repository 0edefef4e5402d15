//! Bindings and the keychord state machine: a binding is a sequence of key
//! presses, and a stream of presses is resolved against all bindings at once.

use vstd::prelude::*;
use crate::keyboard::keysyms::Keycode;
use crate::keyboard::keysyms::Keysym;
use crate::keyboard::keysyms::XK_ESCAPE;
use crate::keyboard::keysyms::clean;
use crate::keyboard::keysyms::clean_state;
use crate::keyboard::keysyms::CONTROL;
use crate::keyboard::keysyms::MOD1;
use crate::keyboard::keysyms::MOD2;
use crate::keyboard::keysyms::MOD3;
use crate::keyboard::keysyms::MOD4;
use crate::keyboard::keysyms::MOD5;
use crate::keyboard::keysyms::SHIFT;
use crate::text::same_text;

verus! {

/// What a binding does.
#[derive(Clone, Copy, Debug, PartialEq, Eq, Structural)]
pub enum KeyAction {
    Spawn,
    SpawnTerminal,
    KillClient,
    FocusStack,
    MoveStack,
    Quit,
    Restart,
    ViewTag,
    ViewNextTag,
    ViewPreviousTag,
    ViewNextNonEmptyTag,
    ViewPreviousNonEmptyTag,
    ToggleView,
    MoveToTag,
    ToggleTag,
    ToggleGaps,
    ToggleFullScreen,
    ToggleFloating,
    ChangeLayout,
    CycleLayout,
    FocusMonitor,
    TagMonitor,
    ShowKeybindOverlay,
    SetMasterFactor,
    IncNumMaster,
    NoAction,
}

impl KeyAction {
    /// The action that a name stands for in the configuration.
    pub open spec fn named(name: Seq<char>) -> Option<KeyAction> {
        if name == "Spawn"@ {
            Some(KeyAction::Spawn)
        } else if name == "SpawnTerminal"@ {
            Some(KeyAction::SpawnTerminal)
        } else if name == "KillClient"@ {
            Some(KeyAction::KillClient)
        } else if name == "FocusStack"@ {
            Some(KeyAction::FocusStack)
        } else if name == "MoveStack"@ {
            Some(KeyAction::MoveStack)
        } else if name == "Quit"@ {
            Some(KeyAction::Quit)
        } else if name == "Restart"@ {
            Some(KeyAction::Restart)
        } else if name == "ViewTag"@ {
            Some(KeyAction::ViewTag)
        } else if name == "ViewNextTag"@ {
            Some(KeyAction::ViewNextTag)
        } else if name == "ViewPreviousTag"@ {
            Some(KeyAction::ViewPreviousTag)
        } else if name == "ViewNextNonEmptyTag"@ {
            Some(KeyAction::ViewNextNonEmptyTag)
        } else if name == "ViewPreviousNonEmptyTag"@ {
            Some(KeyAction::ViewPreviousNonEmptyTag)
        } else if name == "ToggleView"@ {
            Some(KeyAction::ToggleView)
        } else if name == "MoveToTag"@ {
            Some(KeyAction::MoveToTag)
        } else if name == "ToggleTag"@ {
            Some(KeyAction::ToggleTag)
        } else if name == "ToggleGaps"@ {
            Some(KeyAction::ToggleGaps)
        } else if name == "SetMasterFactor"@ {
            Some(KeyAction::SetMasterFactor)
        } else if name == "IncNumMaster"@ {
            Some(KeyAction::IncNumMaster)
        } else if name == "ToggleFullScreen"@ {
            Some(KeyAction::ToggleFullScreen)
        } else if name == "ToggleFloating"@ {
            Some(KeyAction::ToggleFloating)
        } else if name == "ChangeLayout"@ {
            Some(KeyAction::ChangeLayout)
        } else if name == "CycleLayout"@ {
            Some(KeyAction::CycleLayout)
        } else if name == "FocusMonitor"@ {
            Some(KeyAction::FocusMonitor)
        } else if name == "TagMonitor"@ {
            Some(KeyAction::TagMonitor)
        } else if name == "ShowKeybindOverlay"@ {
            Some(KeyAction::ShowKeybindOverlay)
        } else {
            None
        }
    }

    /// Computes `named`.
    pub fn from_name(name: &str) -> (action: Option<KeyAction>)
        ensures
            action == Self::named(name@),
    {
        if same_text(name, "Spawn") {
            Some(KeyAction::Spawn)
        } else if same_text(name, "SpawnTerminal") {
            Some(KeyAction::SpawnTerminal)
        } else if same_text(name, "KillClient") {
            Some(KeyAction::KillClient)
        } else if same_text(name, "FocusStack") {
            Some(KeyAction::FocusStack)
        } else if same_text(name, "MoveStack") {
            Some(KeyAction::MoveStack)
        } else if same_text(name, "Quit") {
            Some(KeyAction::Quit)
        } else if same_text(name, "Restart") {
            Some(KeyAction::Restart)
        } else if same_text(name, "ViewTag") {
            Some(KeyAction::ViewTag)
        } else if same_text(name, "ViewNextTag") {
            Some(KeyAction::ViewNextTag)
        } else if same_text(name, "ViewPreviousTag") {
            Some(KeyAction::ViewPreviousTag)
        } else if same_text(name, "ViewNextNonEmptyTag") {
            Some(KeyAction::ViewNextNonEmptyTag)
        } else if same_text(name, "ViewPreviousNonEmptyTag") {
            Some(KeyAction::ViewPreviousNonEmptyTag)
        } else if same_text(name, "ToggleView") {
            Some(KeyAction::ToggleView)
        } else if same_text(name, "MoveToTag") {
            Some(KeyAction::MoveToTag)
        } else if same_text(name, "ToggleTag") {
            Some(KeyAction::ToggleTag)
        } else if same_text(name, "ToggleGaps") {
            Some(KeyAction::ToggleGaps)
        } else if same_text(name, "SetMasterFactor") {
            Some(KeyAction::SetMasterFactor)
        } else if same_text(name, "IncNumMaster") {
            Some(KeyAction::IncNumMaster)
        } else if same_text(name, "ToggleFullScreen") {
            Some(KeyAction::ToggleFullScreen)
        } else if same_text(name, "ToggleFloating") {
            Some(KeyAction::ToggleFloating)
        } else if same_text(name, "ChangeLayout") {
            Some(KeyAction::ChangeLayout)
        } else if same_text(name, "CycleLayout") {
            Some(KeyAction::CycleLayout)
        } else if same_text(name, "FocusMonitor") {
            Some(KeyAction::FocusMonitor)
        } else if same_text(name, "TagMonitor") {
            Some(KeyAction::TagMonitor)
        } else if same_text(name, "ShowKeybindOverlay") {
            Some(KeyAction::ShowKeybindOverlay)
        } else {
            None
        }
    }
}

/// The modifier bit that a name stands for in the configuration.
pub open spec fn modifier_named(name: Seq<char>) -> Option<u16> {
    if name == "Mod1"@ {
        Some(MOD1)
    } else if name == "Mod2"@ {
        Some(MOD2)
    } else if name == "Mod3"@ {
        Some(MOD3)
    } else if name == "Mod4"@ {
        Some(MOD4)
    } else if name == "Mod5"@ {
        Some(MOD5)
    } else if name == "Shift"@ {
        Some(SHIFT)
    } else if name == "Control"@ {
        Some(CONTROL)
    } else {
        None
    }
}

/// Computes `modifier_named`.
pub fn parse_modkey_string(name: &str) -> (modifier: Option<u16>)
    ensures
        modifier == modifier_named(name@),
{
    if same_text(name, "Mod1") {
        Some(MOD1)
    } else if same_text(name, "Mod2") {
        Some(MOD2)
    } else if same_text(name, "Mod3") {
        Some(MOD3)
    } else if same_text(name, "Mod4") {
        Some(MOD4)
    } else if same_text(name, "Mod5") {
        Some(MOD5)
    } else if same_text(name, "Shift") {
        Some(SHIFT)
    } else if same_text(name, "Control") {
        Some(CONTROL)
    } else {
        None
    }
}

/// Argument of an action.
#[derive(Debug)]
pub enum Arg {
    Nothing,
    Int(i32),
    Str(String),
    Array(Vec<String>),
}

/// What an argument holds.
pub enum ArgView {
    Nothing,
    Int(i32),
    Str(Seq<char>),
    Array(Seq<Seq<char>>),
}

impl View for Arg {
    type V = ArgView;

    open spec fn view(&self) -> ArgView {
        match self {
            Arg::Nothing => ArgView::Nothing,
            Arg::Int(number) => ArgView::Int(*number),
            Arg::Str(text) => ArgView::Str(text@),
            Arg::Array(texts) => ArgView::Array(texts@.map_values(|text: String| text@)),
        }
    }
}

impl Clone for Arg {
    fn clone(&self) -> (copy: Arg)
        ensures
            copy@ == self@,
    {
        match self {
            Arg::Nothing => Arg::Nothing,
            Arg::Int(number) => Arg::Int(*number),
            Arg::Str(text) => Arg::Str(text.clone()),
            Arg::Array(texts) => {
                let mut copies: Vec<String> = Vec::new();
                let mut index: usize = 0;
                while index < texts.len()
                    invariant
                        index <= texts@.len(),
                        copies@.len() == index,
                        forall|k: int| 0 <= k < index ==> copies@[k]@ == texts@[k]@,
                    decreases texts@.len() - index,
                {
                    copies.push(texts[index].clone());
                    index += 1;
                }
                assert(copies@.map_values(|text: String| text@) =~= texts@.map_values(
                    |text: String| text@,
                ));
                Arg::Array(copies)
            },
        }
    }
}

impl Arg {
    pub fn none() -> (arg: Arg)
        ensures
            arg@ == ArgView::Nothing,
    {
        Arg::Nothing
    }
}

/// One key press of a binding: the modifiers to hold and the key.
#[derive(Debug)]
pub struct KeyPress {
    pub modifiers: Vec<u16>,
    pub keysym: Keysym,
}

/// A chord of one or more key presses, with the action it fires.
#[derive(Debug)]
pub struct KeyBinding {
    pub keys: Vec<KeyPress>,
    pub func: KeyAction,
    pub arg: Arg,
}

pub type Key = KeyBinding;

impl KeyBinding {
    pub fn new(keys: Vec<KeyPress>, func: KeyAction, arg: Arg) -> (binding: KeyBinding)
        ensures
            binding.keys == keys,
            binding.func == func,
            binding.arg == arg,
    {
        KeyBinding { keys, func, arg }
    }

    pub fn single_key(modifiers: Vec<u16>, keysym: Keysym, func: KeyAction, arg: Arg) -> (binding:
        KeyBinding)
        ensures
            binding.keys@.len() == 1,
            binding.keys@[0].modifiers == modifiers,
            binding.keys@[0].keysym == keysym,
            binding.func == func,
            binding.arg == arg,
    {
        let mut keys: Vec<KeyPress> = Vec::new();
        keys.push(KeyPress { modifiers, keysym });
        KeyBinding { keys, func, arg }
    }
}

/// Where the resolution of a chord stands.
#[derive(Debug)]
pub enum KeychordState {
    Idle,
    InProgress { candidates: Vec<usize>, keys_pressed: usize },
}

/// What one key press came to.
pub enum KeychordResult {
    Completed(KeyAction, Arg),
    InProgress(Vec<usize>),
    NoMatch,
    Cancelled,
}

/// A key press as the display server reports it.
#[derive(Clone, Copy, Debug, PartialEq, Eq, Structural)]
pub struct KeyPressEvent {
    pub detail: Keycode,
    pub state: u16,
}

/// All bits of the first `count` modifiers together.
pub open spec fn mask_of(modifiers: Seq<u16>, count: int) -> u16
    decreases count,
{
    if count <= 0 {
        0
    } else {
        mask_of(modifiers, count - 1) | modifiers[count - 1]
    }
}

/// All bits of the modifiers together.
pub open spec fn modifier_mask(modifiers: Seq<u16>) -> u16 {
    mask_of(modifiers, modifiers.len() as int)
}

pub fn modifiers_to_mask(modifiers: &[u16]) -> (mask: u16)
    ensures
        mask == modifier_mask(modifiers@),
{
    let mut mask: u16 = 0;
    let mut index: usize = 0;
    while index < modifiers.len()
        invariant
            index <= modifiers@.len(),
            mask == mask_of(modifiers@, index as int),
        decreases modifiers@.len() - index,
    {
        mask = mask | modifiers[index];
        index += 1;
    }
    mask
}

/// The keymap: `keysyms_per_keycode` symbols for each key code from
/// `min_keycode` on.
#[derive(Debug)]
pub struct KeyboardMapping {
    pub syms: Vec<Keysym>,
    pub keysyms_per_keycode: u8,
    pub min_keycode: Keycode,
}

impl KeyboardMapping {
    /// Position of the first symbol of `keycode`.
    pub open spec fn position(self, keycode: Keycode) -> int {
        (keycode - self.min_keycode) * self.keysyms_per_keycode
    }

    /// The first symbol of `keycode`; 0 for a key code outside the keymap.
    pub open spec fn symbol(self, keycode: Keycode) -> Keysym {
        if keycode >= self.min_keycode && self.position(keycode) < self.syms@.len() {
            self.syms@[self.position(keycode)]
        } else {
            0
        }
    }

    pub fn keycode_to_keysym(&self, keycode: Keycode) -> (keysym: Keysym)
        ensures
            keysym == self.symbol(keycode),
    {
        if keycode < self.min_keycode {
            return 0;
        }
        let offset: usize = (keycode - self.min_keycode) as usize;
        let per: usize = self.keysyms_per_keycode as usize;
        assert(0 <= offset * per <= 255 * 255) by (nonlinear_arith)
            requires
                0 <= offset <= 255,
                0 <= per <= 255,
        ;
        let index: usize = offset * per;
        if index < self.syms.len() {
            self.syms[index]
        } else {
            0
        }
    }

    /// `keycode` lies in the keymap and its first symbol is `keysym`.
    pub open spec fn sends(self, keycode: Keycode, keysym: Keysym) -> bool {
        keycode >= self.min_keycode && self.position(keycode) < self.syms@.len()
            && self.syms@[self.position(keycode)] == keysym
    }

    /// The least key code from `min_keycode` to `max_keycode` whose first
    /// symbol is `keysym`.
    pub fn find_keycode(&self, keysym: Keysym, min_keycode: Keycode, max_keycode: Keycode) -> (found:
        Option<Keycode>)
        ensures
            match found {
                Some(keycode) => min_keycode <= keycode <= max_keycode && self.sends(
                    keycode,
                    keysym,
                ) && forall|other: Keycode|
                    min_keycode <= other < keycode ==> !self.sends(other, keysym),
                None => forall|other: Keycode|
                    min_keycode <= other <= max_keycode ==> !self.sends(other, keysym),
            },
    {
        let mut keycode: Keycode = min_keycode;
        while keycode <= max_keycode
            invariant
                min_keycode <= keycode,
                forall|other: Keycode| min_keycode <= other < keycode ==> !self.sends(other, keysym),
            decreases max_keycode - keycode + 1,
        {
            if keycode >= self.min_keycode {
                let offset: usize = (keycode - self.min_keycode) as usize;
                let per: usize = self.keysyms_per_keycode as usize;
                assert(0 <= offset * per <= 255 * 255) by (nonlinear_arith)
                    requires
                        0 <= offset <= 255,
                        0 <= per <= 255,
                ;
                let index: usize = offset * per;
                if index < self.syms.len() && self.syms[index] == keysym {
                    return Some(keycode);
                }
            }
            if keycode == max_keycode {
                return None;
            }
            keycode += 1;
        }
        None
    }
}

impl KeyBinding {
    /// A press of `keysym` under the cleaned modifier state `state` is the
    /// first key of the binding: the key and exactly its modifiers.
    pub open spec fn starts_with(self, keysym: Keysym, state: u16) -> bool {
        self.keys@.len() > 0 && self.keys@[0].keysym == keysym && state == modifier_mask(
            self.keys@[0].modifiers@,
        )
    }

    /// A press of `keysym` under the cleaned modifier state `state` is key
    /// number `depth` of the binding: the key, with at least its modifiers.
    pub open spec fn continues_with(self, depth: int, keysym: Keysym, state: u16) -> bool {
        0 <= depth < self.keys@.len() && self.keys@[depth].keysym == keysym && state
            & modifier_mask(self.keys@[depth].modifiers@) == modifier_mask(
            self.keys@[depth].modifiers@,
        )
    }
}

/// The bindings of more than one key, among the first `count`, that a first
/// press starts, in their order.
pub open spec fn chords_started(
    keybindings: Seq<KeyBinding>,
    count: int,
    keysym: Keysym,
    state: u16,
) -> Seq<usize>
    decreases count,
{
    if count <= 0 {
        Seq::empty()
    } else {
        let before = chords_started(keybindings, count - 1, keysym, state);
        if keybindings[count - 1].starts_with(keysym, state) && keybindings[count - 1].keys@.len()
            > 1 {
            before.push((count - 1) as usize)
        } else {
            before
        }
    }
}

/// `index` is the first binding of one key that a first press fires.
pub open spec fn fires_first(
    keybindings: Seq<KeyBinding>,
    index: int,
    keysym: Keysym,
    state: u16,
) -> bool {
    &&& 0 <= index < keybindings.len()
    &&& keybindings[index].starts_with(keysym, state)
    &&& keybindings[index].keys@.len() == 1
    &&& forall|k: int|
        0 <= k < index ==> !(#[trigger] keybindings[k].starts_with(keysym, state)
            && keybindings[k].keys@.len() == 1)
}

/// No binding of one key is fired by a first press.
pub open spec fn fires_none(keybindings: Seq<KeyBinding>, keysym: Keysym, state: u16) -> bool {
    forall|k: int|
        0 <= k < keybindings.len() ==> !(#[trigger] keybindings[k].starts_with(keysym, state)
            && keybindings[k].keys@.len() == 1)
}

/// The candidates, among the first `count`, that a further press at `depth`
/// keeps in play, in their order.
pub open spec fn chords_continued(
    keybindings: Seq<KeyBinding>,
    candidates: Seq<usize>,
    count: int,
    depth: int,
    keysym: Keysym,
    state: u16,
) -> Seq<usize>
    decreases count,
{
    if count <= 0 {
        Seq::empty()
    } else {
        let before = chords_continued(keybindings, candidates, count - 1, depth, keysym, state);
        let index = candidates[count - 1];
        if index < keybindings.len() && keybindings[index as int].continues_with(
            depth,
            keysym,
            state,
        ) {
            before.push(index)
        } else {
            before
        }
    }
}

/// Candidate number `place` is the first that a further press at `depth`
/// completes.
pub open spec fn completes_at(
    keybindings: Seq<KeyBinding>,
    candidates: Seq<usize>,
    place: int,
    depth: int,
    keysym: Keysym,
    state: u16,
) -> bool {
    &&& 0 <= place < candidates.len()
    &&& candidates[place] < keybindings.len()
    &&& keybindings[candidates[place] as int].continues_with(depth, keysym, state)
    &&& keybindings[candidates[place] as int].keys@.len() == depth + 1
    &&& forall|k: int|
        0 <= k < place ==> !(candidates[k] < keybindings.len()
            && #[trigger] keybindings[candidates[k] as int].continues_with(depth, keysym, state)
            && keybindings[candidates[k] as int].keys@.len() == depth + 1)
}

/// No candidate is completed by a further press at `depth`.
pub open spec fn completes_none(
    keybindings: Seq<KeyBinding>,
    candidates: Seq<usize>,
    depth: int,
    keysym: Keysym,
    state: u16,
) -> bool {
    forall|k: int|
        0 <= k < candidates.len() ==> !(candidates[k] < keybindings.len()
            && #[trigger] keybindings[candidates[k] as int].continues_with(depth, keysym, state)
            && keybindings[candidates[k] as int].keys@.len() == depth + 1)
}

/// `result` is what a first press of `keysym` under the cleaned modifier
/// state `state` comes to.
pub open spec fn resolves_first(
    result: KeychordResult,
    keybindings: Seq<KeyBinding>,
    keysym: Keysym,
    state: u16,
) -> bool {
    let chords = chords_started(keybindings, keybindings.len() as int, keysym, state);
    match result {
        KeychordResult::InProgress(candidates) => candidates@ == chords && chords.len() > 0,
        KeychordResult::Completed(action, arg) => chords.len() == 0 && exists|index: int|
            #![auto]
            fires_first(keybindings, index, keysym, state) && action == keybindings[index].func
                && arg@ == keybindings[index].arg@,
        KeychordResult::NoMatch => chords.len() == 0 && fires_none(keybindings, keysym, state),
        KeychordResult::Cancelled => false,
    }
}

/// `result` is what a further press of `keysym` under the cleaned modifier
/// state `state` comes to, `depth` keys into a chord.
pub open spec fn resolves_next(
    result: KeychordResult,
    keybindings: Seq<KeyBinding>,
    candidates: Seq<usize>,
    depth: int,
    keysym: Keysym,
    state: u16,
) -> bool {
    let kept = chords_continued(
        keybindings,
        candidates,
        candidates.len() as int,
        depth,
        keysym,
        state,
    );
    match result {
        KeychordResult::Completed(action, arg) => exists|place: int|
            #![auto]
            completes_at(keybindings, candidates, place, depth, keysym, state) && action
                == keybindings[candidates[place] as int].func && arg@
                == keybindings[candidates[place] as int].arg@,
        KeychordResult::InProgress(left) => completes_none(
            keybindings,
            candidates,
            depth,
            keysym,
            state,
        ) && left@ == kept && kept.len() > 0,
        KeychordResult::Cancelled => completes_none(keybindings, candidates, depth, keysym, state)
            && kept.len() == 0,
        KeychordResult::NoMatch => false,
    }
}

/// Resolves the first press of a chord.  Bindings of several keys that the
/// press starts take precedence: with any of them the chord is in progress,
/// with them as candidates.  Otherwise the first binding of one key that the
/// press matches is fired.  Lock modifiers in `event.state` are ignored.
pub fn handle_first_key(event: KeyPressEvent, event_keysym: Keysym, keybindings: &[KeyBinding]) -> (result:
    KeychordResult)
    ensures
        resolves_first(result, keybindings@, event_keysym, clean(event.state)),
{
    let state: u16 = clean_state(event.state);
    let mut candidates: Vec<usize> = Vec::new();
    let mut single: Option<usize> = None;
    let mut index: usize = 0;
    while index < keybindings.len()
        invariant
            index <= keybindings@.len(),
            state == clean(event.state),
            candidates@ == chords_started(keybindings@, index as int, event_keysym, state),
            match single {
                Some(found) => found < index && fires_first(
                    keybindings@,
                    found as int,
                    event_keysym,
                    state,
                ),
                None => forall|k: int|
                    0 <= k < index ==> !(#[trigger] keybindings@[k].starts_with(event_keysym, state)
                        && keybindings@[k].keys@.len() == 1),
            },
        decreases keybindings@.len() - index,
    {
        let keybinding = &keybindings[index];
        if keybinding.keys.len() > 0 {
            let first_key = &keybinding.keys[0];
            let mask: u16 = modifiers_to_mask(first_key.modifiers.as_slice());
            if event_keysym == first_key.keysym && state == mask {
                if keybinding.keys.len() == 1 {
                    if single.is_none() {
                        single = Some(index);
                    }
                } else {
                    candidates.push(index);
                }
            }
        }
        index += 1;
    }
    if candidates.len() > 0 {
        KeychordResult::InProgress(candidates)
    } else {
        match single {
            Some(found) => KeychordResult::Completed(
                keybindings[found].func,
                keybindings[found].arg.clone(),
            ),
            None => KeychordResult::NoMatch,
        }
    }
}

/// Resolves a further press of a chord in progress, `keys_pressed` keys into
/// it.  The first candidate that the press completes is fired; otherwise the
/// candidates that the press matches stay in play; with none left the chord
/// is cancelled.  Candidates that name no binding are dropped.
pub fn handle_next_key(
    event: KeyPressEvent,
    event_keysym: Keysym,
    keybindings: &[KeyBinding],
    candidates: &[usize],
    keys_pressed: usize,
) -> (result: KeychordResult)
    ensures
        resolves_next(
            result,
            keybindings@,
            candidates@,
            keys_pressed as int,
            event_keysym,
            clean(event.state),
        ),
{
    let state: u16 = clean_state(event.state);
    let mut kept: Vec<usize> = Vec::new();
    let mut place: usize = 0;
    while place < candidates.len()
        invariant
            place <= candidates@.len(),
            state == clean(event.state),
            kept@ == chords_continued(
                keybindings@,
                candidates@,
                place as int,
                keys_pressed as int,
                event_keysym,
                state,
            ),
            forall|k: int|
                0 <= k < place ==> !(candidates@[k] < keybindings@.len()
                    && #[trigger] keybindings@[candidates@[k] as int].continues_with(
                    keys_pressed as int,
                    event_keysym,
                    state,
                ) && keybindings@[candidates@[k] as int].keys@.len() == keys_pressed + 1),
        decreases candidates@.len() - place,
    {
        let candidate: usize = candidates[place];
        if candidate < keybindings.len() {
            let keybinding = &keybindings[candidate];
            if keys_pressed < keybinding.keys.len() {
                let next_key = &keybinding.keys[keys_pressed];
                let required: u16 = modifiers_to_mask(next_key.modifiers.as_slice());
                if event_keysym == next_key.keysym && (state & required) == required {
                    if keys_pressed + 1 == keybinding.keys.len() {
                        assert(completes_at(
                            keybindings@,
                            candidates@,
                            place as int,
                            keys_pressed as int,
                            event_keysym,
                            state,
                        ));
                        return KeychordResult::Completed(keybinding.func, keybinding.arg.clone());
                    }
                    kept.push(candidate);
                }
            }
        }
        place += 1;
    }
    if kept.len() == 0 {
        KeychordResult::Cancelled
    } else {
        KeychordResult::InProgress(kept)
    }
}

/// `result` is what a press of `keysym` under the cleaned modifier state
/// `state` comes to in the chord state `chord`.
pub open spec fn resolves_press(
    result: KeychordResult,
    keybindings: Seq<KeyBinding>,
    chord: KeychordState,
    keysym: Keysym,
    state: u16,
) -> bool {
    match chord {
        KeychordState::Idle => if keysym == XK_ESCAPE {
            result is NoMatch
        } else {
            resolves_first(result, keybindings, keysym, state)
        },
        KeychordState::InProgress { candidates, keys_pressed } => if keysym == XK_ESCAPE {
            result is Cancelled
        } else {
            resolves_next(result, keybindings, candidates@, keys_pressed as int, keysym, state)
        },
    }
}

/// Resolves one key press against the bindings.  The cancel key, Escape,
/// cancels a chord in progress and does nothing otherwise; any other key is
/// a first or a further key of a chord, by the state.
pub fn handle_key_press(
    event: KeyPressEvent,
    keybindings: &[KeyBinding],
    keychord_state: &KeychordState,
    mapping: &KeyboardMapping,
) -> (result: KeychordResult)
    ensures
        resolves_press(
            result,
            keybindings@,
            *keychord_state,
            mapping.symbol(event.detail),
            clean(event.state),
        ),
{
    let keysym = mapping.keycode_to_keysym(event.detail);
    if keysym == XK_ESCAPE {
        return match keychord_state {
            KeychordState::InProgress { .. } => KeychordResult::Cancelled,
            KeychordState::Idle => KeychordResult::NoMatch,
        };
    }
    match keychord_state {
        KeychordState::Idle => handle_first_key(event, keysym, keybindings),
        KeychordState::InProgress { candidates, keys_pressed } => handle_next_key(
            event,
            keysym,
            keybindings,
            candidates.as_slice(),
            *keys_pressed,
        ),
    }
}

} // verus!
