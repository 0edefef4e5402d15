//! What the engine tells the bar and the strips of tabs: the symbol of the
//! layout, the tags that are occupied and urgent, and the chord in
//! progress.

use vstd::prelude::*;
use vstd::string::StringExecFns;
use crate::client::Client;
use crate::config::LayoutSymbolOverride;
use crate::keyboard::handlers::KeyBinding;
use crate::keyboard::handlers::KeyPress;
use crate::keyboard::handlers::KeychordState;
use crate::keyboard::keysyms::CONTROL;
use crate::keyboard::keysyms::format_keysym;
use crate::keyboard::keysyms::key_name;
use crate::keyboard::keysyms::MOD1;
use crate::keyboard::keysyms::MOD4;
use crate::keyboard::keysyms::SHIFT;
use crate::tags::TagMask;
use crate::tags::Window;
use crate::text::push_char;
use crate::text::same_text;
use crate::window_manager::WindowManager;

verus! {

/// The symbol that the first `count` overrides give the layout called
/// `name`, if any: that of the first override for that name.
pub open spec fn override_for(overrides: Seq<LayoutSymbolOverride>, name: Seq<char>, from: int) -> Option<
    Seq<char>,
>
    decreases overrides.len() - from,
{
    if from < 0 || from >= overrides.len() {
        None
    } else if overrides[from].name@ == name {
        Some(overrides[from].symbol@)
    } else {
        override_for(overrides, name, from + 1)
    }
}

/// The tags of the clients on monitor `m` among the first `count` clients,
/// all those clients or the urgent ones only.
pub open spec fn tags_among(clients: Seq<Client>, m: usize, urgent_only: bool, count: int) -> TagMask
    decreases count,
{
    if count <= 0 {
        0
    } else {
        let before = tags_among(clients, m, urgent_only, count - 1);
        let client = clients[count - 1];
        if client.monitor_index == m && (!urgent_only || client.is_urgent) {
            before | client.tags
        } else {
            before
        }
    }
}

/// Name of a modifier as the bar shows it.
pub open spec fn modifier_name(modifier: u16) -> Seq<char> {
    if modifier == MOD1 {
        "Alt"@
    } else if modifier == MOD4 {
        "Super"@
    } else if modifier == SHIFT {
        "Shift"@
    } else if modifier == CONTROL {
        "Ctrl"@
    } else {
        "Mod"@
    }
}

/// Computes `modifier_name`.
pub fn format_modifier(modifier: u16) -> (name: &'static str)
    ensures
        name@ == modifier_name(modifier),
{
    if modifier == MOD1 {
        "Alt"
    } else if modifier == MOD4 {
        "Super"
    } else if modifier == SHIFT {
        "Shift"
    } else if modifier == CONTROL {
        "Ctrl"
    } else {
        "Mod"
    }
}

/// The first `count` modifiers of a key press, each followed by a plus.
pub open spec fn modifiers_text(modifiers: Seq<u16>, count: int) -> Seq<char>
    decreases count,
{
    if count <= 0 {
        Seq::empty()
    } else {
        modifiers_text(modifiers, count - 1) + modifier_name(modifiers[count - 1]) + seq!['+']
    }
}

/// A key press as the bar shows it: its modifiers, then its key.
pub open spec fn press_text(press: KeyPress) -> Seq<char> {
    modifiers_text(press.modifiers@, press.modifiers@.len() as int) + key_name(press.keysym)
}

/// The first `count` key presses of a chord, with spaces between them.
pub open spec fn chord_text(keys: Seq<KeyPress>, count: int) -> Seq<char>
    decreases count,
{
    if count <= 0 {
        Seq::empty()
    } else if count == 1 {
        press_text(keys[0])
    } else {
        chord_text(keys, count - 1) + seq![' '] + press_text(keys[count - 1])
    }
}

/// Adds `press_text` to a text.
fn append_press(text: &mut String, press: &KeyPress)
    ensures
        final(text)@ == old(text)@ + press_text(*press),
{
    let ghost start = text@;
    let mut index: usize = 0;
    while index < press.modifiers.len()
        invariant
            index <= press.modifiers@.len(),
            text@ == start + modifiers_text(press.modifiers@, index as int),
        decreases press.modifiers@.len() - index,
    {
        text.append(format_modifier(press.modifiers[index]));
        push_char(text, '+');
        assert(text@ =~= start + modifiers_text(press.modifiers@, index + 1));
        index += 1;
    }
    let name = format_keysym(press.keysym);
    text.append(name.as_str());
    assert(text@ =~= start + press_text(*press));
}

impl WindowManager {
    /// The symbol of the layout in force: the one that the configuration
    /// gives it, or else its own.
    pub open spec fn layout_symbol(self) -> Seq<char> {
        match override_for(self.config.layout_symbols@, self.layout.name_text(), 0) {
            Some(symbol) => symbol,
            None => self.layout.symbol_text(),
        }
    }

    pub fn get_layout_symbol(&self) -> (symbol: String)
        ensures
            symbol@ == self.layout_symbol(),
    {
        let name = self.layout.as_str();
        let overrides = &self.config.layout_symbols;
        let mut index: usize = 0;
        while index < overrides.len()
            invariant
                index <= overrides@.len(),
                *overrides == self.config.layout_symbols,
                name@ == self.layout.name_text(),
                override_for(overrides@, name@, 0) == override_for(overrides@, name@, index as int),
            decreases overrides@.len() - index,
        {
            if same_text(overrides[index].name.as_str(), name) {
                return overrides[index].symbol.clone();
            }
            index += 1;
        }
        String::from_str(self.layout.symbol())
    }

    /// The tags that the clients of monitor `monitor_index` have between
    /// them: those of all its clients, or of the urgent ones only.
    pub fn tags_in_use(&self, monitor_index: usize, urgent_only: bool) -> (tags: TagMask)
        ensures
            tags == tags_among(
                self.clients@,
                monitor_index,
                urgent_only,
                self.clients@.len() as int,
            ),
    {
        let mut tags: TagMask = 0;
        let mut index: usize = 0;
        while index < self.clients.len()
            invariant
                index <= self.clients@.len(),
                tags == tags_among(self.clients@, monitor_index, urgent_only, index as int),
            decreases self.clients@.len() - index,
        {
            let client = &self.clients[index];
            if client.monitor_index == monitor_index && (!urgent_only || client.is_urgent) {
                tags = tags | client.tags;
            }
            index += 1;
        }
        tags
    }

    /// The tags of monitor `monitor_index` that hold a window.
    pub fn occupied_tags(&self, monitor_index: usize) -> (tags: TagMask)
        ensures
            tags == tags_among(self.clients@, monitor_index, false, self.clients@.len() as int),
    {
        self.tags_in_use(monitor_index, false)
    }

    /// The tags of monitor `monitor_index` that hold an urgent window.
    pub fn urgent_tags(&self, monitor_index: usize) -> (tags: TagMask)
        ensures
            tags == tags_among(self.clients@, monitor_index, true, self.clients@.len() as int),
    {
        self.tags_in_use(monitor_index, true)
    }

    /// The chord in progress as the bar shows it: the keys pressed so far
    /// of the first binding still in play, then a hyphen.  None while no
    /// chord is in progress or where the state names no binding.
    pub open spec fn keychord_indicator(self) -> Option<Seq<char>> {
        match self.keychord_state {
            KeychordState::Idle => None,
            KeychordState::InProgress { candidates, keys_pressed } => if candidates@.len() > 0
                && candidates@[0] < self.config.keybindings@.len() {
                let keys = self.config.keybindings@[candidates@[0] as int].keys@;
                Some(
                    chord_text(
                        keys,
                        if keys_pressed < keys.len() {
                            keys_pressed as int
                        } else {
                            keys.len() as int
                        },
                    ) + seq!['-'],
                )
            } else {
                None
            },
        }
    }

    pub fn get_keychord_indicator(&self) -> (indicator: Option<String>)
        ensures
            match indicator {
                Some(text) => self.keychord_indicator() == Some(text@),
                None => self.keychord_indicator().is_none(),
            },
    {
        match &self.keychord_state {
            KeychordState::Idle => None,
            KeychordState::InProgress { candidates, keys_pressed } => {
                if candidates.len() == 0 || candidates[0] >= self.config.keybindings.len() {
                    return None;
                }
                let binding: &KeyBinding = &self.config.keybindings[candidates[0]];
                let shown: usize = if *keys_pressed < binding.keys.len() {
                    *keys_pressed
                } else {
                    binding.keys.len()
                };
                let mut text = String::new();
                let mut index: usize = 0;
                while index < shown
                    invariant
                        index <= shown,
                        shown <= binding.keys@.len(),
                        text@ == chord_text(binding.keys@, index as int),
                    decreases shown - index,
                {
                    if index > 0 {
                        push_char(&mut text, ' ');
                    }
                    append_press(&mut text, &binding.keys[index]);
                    assert(text@ =~= chord_text(binding.keys@, index + 1));
                    index += 1;
                }
                push_char(&mut text, '-');
                assert(text@ =~= chord_text(binding.keys@, shown as int) + seq!['-']);
                Some(text)
            },
        }
    }

    /// Title of a managed window.
    pub fn title_of(&self, window: Window) -> (title: Option<String>)
        requires
            self.wf(),
        ensures
            match title {
                Some(text) => self.has(window) && text == self.client(window).name,
                None => !self.has(window),
            },
    {
        match self.find(window) {
            Some(index) => {
                proof {
                    self.lemma_place(index as int);
                }
                Some(self.clients[index].name.clone())
            },
            None => None,
        }
    }
}

} // verus!
