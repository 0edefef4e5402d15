//! The policy parameters that the configuration layer hands to the engine.

use vstd::prelude::*;
use vstd::string::StringExecFns;
use crate::bar::BlockCommand;
use crate::bar::BlockConfig;
use crate::keyboard::handlers::Arg;
use crate::keyboard::handlers::ArgView;
use crate::keyboard::handlers::KeyAction;
use crate::keyboard::handlers::modifier_mask;
use crate::keyboard::keysyms::Keysym;
use crate::keyboard::keysyms::MOD4;
use crate::keyboard::keysyms::SHIFT;
use crate::keyboard::keysyms::XK_1;
use crate::keyboard::keysyms::XK_A;
use crate::keyboard::keysyms::XK_D;
use crate::keyboard::keysyms::XK_F;
use crate::keyboard::keysyms::XK_J;
use crate::keyboard::keysyms::XK_K;
use crate::keyboard::keysyms::XK_N;
use crate::keyboard::keysyms::XK_Q;
use crate::keyboard::keysyms::XK_R;
use crate::keyboard::keysyms::XK_RETURN;
use crate::keyboard::handlers::KeyBinding;
use crate::tags::MAX_TAGS;
use crate::text::contains_text;
use crate::text::occurs_in;

verus! {

/// A symbol that replaces the built-in one of the layout called `name`.
#[derive(Debug)]
pub struct LayoutSymbolOverride {
    pub name: String,
    pub symbol: String,
}

/// A rule for new windows: the windows that it matches, and what it sets.
#[derive(Debug)]
pub struct WindowRule {
    pub class: Option<String>,
    pub instance: Option<String>,
    pub title: Option<String>,
    pub tags: Option<u32>,
    pub focus: Option<bool>,
    pub is_floating: Option<bool>,
    pub monitor: Option<usize>,
}

/// A pattern that is absent matches every text; one that is present matches
/// the texts in which it occurs.
pub open spec fn pattern_matches(pattern: Option<String>, text: Seq<char>) -> bool {
    match pattern {
        Some(part) => occurs_in(part@, text),
        None => true,
    }
}

/// Computes `pattern_matches`.
fn pattern_found(pattern: &Option<String>, text: &str) -> (found: bool)
    ensures
        found == pattern_matches(*pattern, text@),
{
    match pattern {
        Some(part) => contains_text(text, part.as_str()),
        None => true,
    }
}

impl WindowRule {
    /// The rule applies to a window of this class, instance and title: each
    /// pattern that the rule has occurs in its text.
    pub open spec fn applies_to(
        self,
        class: Seq<char>,
        instance: Seq<char>,
        title: Seq<char>,
    ) -> bool {
        pattern_matches(self.class, class) && pattern_matches(self.instance, instance)
            && pattern_matches(self.title, title)
    }

    pub fn matches(&self, class: &str, instance: &str, title: &str) -> (matched: bool)
        ensures
            matched == self.applies_to(class@, instance@, title@),
    {
        let class_matches = pattern_found(&self.class, class);
        let instance_matches = pattern_found(&self.instance, instance);
        let title_matches = pattern_found(&self.title, title);
        class_matches && instance_matches && title_matches
    }
}

/// Colours of one state of a tag label.
#[derive(Clone, Copy, Debug, PartialEq, Eq, Structural)]
pub struct ColorScheme {
    pub foreground: u32,
    pub background: u32,
    pub underline: u32,
}

#[derive(Debug)]
pub struct Config {
    // Appearance
    pub border_width: u32,
    pub border_focused: u32,
    pub border_unfocused: u32,
    pub font: String,
    // Gaps
    pub gaps_enabled: bool,
    pub smartgaps_enabled: bool,
    pub gap_inner_horizontal: u32,
    pub gap_inner_vertical: u32,
    pub gap_outer_horizontal: u32,
    pub gap_outer_vertical: u32,
    // Basics
    pub terminal: String,
    /// Modifier bit of the key that starts the manager's own bindings.
    pub modkey: u16,
    // Tags
    pub tags: Vec<String>,
    // Layout symbol overrides
    pub layout_symbols: Vec<LayoutSymbolOverride>,
    // Keybindings
    pub keybindings: Vec<KeyBinding>,
    pub tag_back_and_forth: bool,
    // Window rules
    pub window_rules: Vec<WindowRule>,
    // Status bar
    pub status_blocks: Vec<BlockConfig>,
    // Bar color schemes
    pub scheme_normal: ColorScheme,
    pub scheme_occupied: ColorScheme,
    pub scheme_selected: ColorScheme,
    pub scheme_urgent: ColorScheme,
    pub autostart: Vec<String>,
    pub auto_tile: bool,
    pub hide_vacant_tags: bool,
}

impl Config {
    /// Number of tags that the engine works with: those configured, as far
    /// as a tag mask has bits for them.
    pub open spec fn tag_count(self) -> nat {
        if self.tags@.len() < MAX_TAGS {
            self.tags@.len()
        } else {
            MAX_TAGS as nat
        }
    }

    /// Computes `tag_count`.
    pub fn count_tags(&self) -> (count: usize)
        ensures
            count == self.tag_count(),
            count <= MAX_TAGS,
    {
        if self.tags.len() < MAX_TAGS {
            self.tags.len()
        } else {
            MAX_TAGS
        }
    }

    /// The inner and outer gaps to arrange with: the configured ones while
    /// gaps are on, none otherwise.
    pub open spec fn gaps_when(self, enabled: bool) -> crate::layout::GapConfig {
        if enabled {
            crate::layout::GapConfig {
                inner_horizontal: self.gap_inner_horizontal,
                inner_vertical: self.gap_inner_vertical,
                outer_horizontal: self.gap_outer_horizontal,
                outer_vertical: self.gap_outer_vertical,
            }
        } else {
            crate::layout::GapConfig {
                inner_horizontal: 0,
                inner_vertical: 0,
                outer_horizontal: 0,
                outer_vertical: 0,
            }
        }
    }

    /// Computes `gaps_when`.
    pub fn gaps(&self, enabled: bool) -> (gaps: crate::layout::GapConfig)
        ensures
            gaps == self.gaps_when(enabled),
    {
        if enabled {
            crate::layout::GapConfig {
                inner_horizontal: self.gap_inner_horizontal,
                inner_vertical: self.gap_inner_vertical,
                outer_horizontal: self.gap_outer_horizontal,
                outer_vertical: self.gap_outer_vertical,
            }
        } else {
            crate::layout::GapConfig {
                inner_horizontal: 0,
                inner_vertical: 0,
                outer_horizontal: 0,
                outer_vertical: 0,
            }
        }
    }
}

/// A binding of the built-in configuration: the modifiers, the key, the
/// action and its argument.
pub struct DefaultBinding {
    pub shifted: bool,
    pub keysym: Keysym,
    pub func: KeyAction,
    pub arg: ArgView,
}

/// The bindings of the built-in configuration, by their place.  All are
/// single keys under the fourth modifier, some with shift.  The first
/// eleven start the terminal and the menu and act on the windows and the
/// layout; the next nine bring the tags into view by their numbers; the
/// last nine move the selected window to them.
pub open spec fn default_binding(place: int) -> DefaultBinding {
    if place == 0 {
        DefaultBinding {
            shifted: false,
            keysym: XK_RETURN,
            func: KeyAction::Spawn,
            arg: ArgView::Str("st"@),
        }
    } else if place == 1 {
        DefaultBinding {
            shifted: false,
            keysym: XK_D,
            func: KeyAction::Spawn,
            arg: ArgView::Array(seq!["sh"@, "-c"@, "dmenu_run -l 10"@]),
        }
    } else if place == 2 {
        DefaultBinding {
            shifted: false,
            keysym: XK_Q,
            func: KeyAction::KillClient,
            arg: ArgView::Nothing,
        }
    } else if place == 3 {
        DefaultBinding {
            shifted: false,
            keysym: XK_N,
            func: KeyAction::CycleLayout,
            arg: ArgView::Nothing,
        }
    } else if place == 4 {
        DefaultBinding {
            shifted: true,
            keysym: XK_F,
            func: KeyAction::ToggleFullScreen,
            arg: ArgView::Nothing,
        }
    } else if place == 5 {
        DefaultBinding {
            shifted: false,
            keysym: XK_A,
            func: KeyAction::ToggleGaps,
            arg: ArgView::Nothing,
        }
    } else if place == 6 {
        DefaultBinding { shifted: true, keysym: XK_Q, func: KeyAction::Quit, arg: ArgView::Nothing }
    } else if place == 7 {
        DefaultBinding {
            shifted: true,
            keysym: XK_R,
            func: KeyAction::Restart,
            arg: ArgView::Nothing,
        }
    } else if place == 8 {
        DefaultBinding {
            shifted: false,
            keysym: XK_F,
            func: KeyAction::ToggleFloating,
            arg: ArgView::Nothing,
        }
    } else if place == 9 {
        DefaultBinding {
            shifted: false,
            keysym: XK_J,
            func: KeyAction::FocusStack,
            arg: ArgView::Int(-1i32),
        }
    } else if place == 10 {
        DefaultBinding {
            shifted: false,
            keysym: XK_K,
            func: KeyAction::FocusStack,
            arg: ArgView::Int(1i32),
        }
    } else if place < 20 {
        DefaultBinding {
            shifted: false,
            keysym: (XK_1 + (place - 11)) as Keysym,
            func: KeyAction::ViewTag,
            arg: ArgView::Int((place - 11) as i32),
        }
    } else {
        DefaultBinding {
            shifted: true,
            keysym: (XK_1 + (place - 20)) as Keysym,
            func: KeyAction::MoveToTag,
            arg: ArgView::Int((place - 20) as i32),
        }
    }
}

/// The binding is the one that the built-in configuration has at a place.
pub open spec fn is_default_binding(binding: KeyBinding, place: int) -> bool {
    let wanted = default_binding(place);
    &&& binding.keys@.len() == 1
    &&& binding.keys@[0].keysym == wanted.keysym
    &&& binding.keys@[0].modifiers@ == if wanted.shifted {
        seq![MOD4, SHIFT]
    } else {
        seq![MOD4]
    }
    &&& binding.func == wanted.func
    &&& binding.arg@ == wanted.arg
}

/// A binding of one key under the fourth modifier, with shift or not.
fn bind(shifted: bool, keysym: Keysym, func: KeyAction, arg: Arg) -> (binding: KeyBinding)
    ensures
        binding.keys@.len() == 1,
        binding.keys@[0].keysym == keysym,
        binding.keys@[0].modifiers@ == if shifted {
            seq![MOD4, SHIFT]
        } else {
            seq![MOD4]
        },
        binding.func == func,
        binding.arg == arg,
{
    let mut modifiers: Vec<u16> = Vec::new();
    modifiers.push(MOD4);
    if shifted {
        modifiers.push(SHIFT);
    }
    assert(modifiers@ =~= if shifted {
        seq![MOD4, SHIFT]
    } else {
        seq![MOD4]
    });
    KeyBinding::single_key(modifiers, keysym, func, arg)
}

/// The bindings of the built-in configuration.
fn default_keybindings() -> (keybindings: Vec<KeyBinding>)
    ensures
        keybindings@.len() == 29,
        forall|place: int| 0 <= place < 29 ==> is_default_binding(#[trigger] keybindings@[place], place),
{
    let mut keybindings: Vec<KeyBinding> = Vec::new();
    keybindings.push(bind(false, XK_RETURN, KeyAction::Spawn, Arg::Str(String::from_str("st"))));
    let mut menu: Vec<String> = Vec::new();
    menu.push(String::from_str("sh"));
    menu.push(String::from_str("-c"));
    menu.push(String::from_str("dmenu_run -l 10"));
    assert(menu@.map_values(|text: String| text@) =~= seq!["sh"@, "-c"@, "dmenu_run -l 10"@]);
    keybindings.push(bind(false, XK_D, KeyAction::Spawn, Arg::Array(menu)));
    keybindings.push(bind(false, XK_Q, KeyAction::KillClient, Arg::Nothing));
    keybindings.push(bind(false, XK_N, KeyAction::CycleLayout, Arg::Nothing));
    keybindings.push(bind(true, XK_F, KeyAction::ToggleFullScreen, Arg::Nothing));
    keybindings.push(bind(false, XK_A, KeyAction::ToggleGaps, Arg::Nothing));
    keybindings.push(bind(true, XK_Q, KeyAction::Quit, Arg::Nothing));
    keybindings.push(bind(true, XK_R, KeyAction::Restart, Arg::Nothing));
    keybindings.push(bind(false, XK_F, KeyAction::ToggleFloating, Arg::Nothing));
    keybindings.push(bind(false, XK_J, KeyAction::FocusStack, Arg::Int(-1)));
    keybindings.push(bind(false, XK_K, KeyAction::FocusStack, Arg::Int(1)));
    assert forall|place: int| 0 <= place < 11 implies is_default_binding(
        #[trigger] keybindings@[place],
        place,
    ) by {}
    let mut tag: u32 = 0;
    while tag < 9
        invariant
            tag <= 9,
            keybindings@.len() == 11 + tag,
            forall|place: int|
                0 <= place < 11 + tag ==> is_default_binding(#[trigger] keybindings@[place], place),
        decreases 9 - tag,
    {
        keybindings.push(bind(false, XK_1 + tag, KeyAction::ViewTag, Arg::Int(tag as i32)));
        tag += 1;
    }
    let mut tag: u32 = 0;
    while tag < 9
        invariant
            tag <= 9,
            keybindings@.len() == 20 + tag,
            forall|place: int|
                0 <= place < 20 + tag ==> is_default_binding(#[trigger] keybindings@[place], place),
        decreases 9 - tag,
    {
        keybindings.push(bind(true, XK_1 + tag, KeyAction::MoveToTag, Arg::Int(tag as i32)));
        tag += 1;
    }
    keybindings
}

/// Name of a tag of the built-in configuration: its number from 1 on.
pub open spec fn default_tag(place: int) -> Seq<char> {
    if place == 0 {
        "1"@
    } else if place == 1 {
        "2"@
    } else if place == 2 {
        "3"@
    } else if place == 3 {
        "4"@
    } else if place == 4 {
        "5"@
    } else if place == 5 {
        "6"@
    } else if place == 6 {
        "7"@
    } else if place == 7 {
        "8"@
    } else {
        "9"@
    }
}

/// The tags of the built-in configuration.
fn default_tags() -> (tags: Vec<String>)
    ensures
        tags@.len() == 9,
        forall|place: int| 0 <= place < 9 ==> (#[trigger] tags@[place])@ == default_tag(place),
{
    let mut tags: Vec<String> = Vec::new();
    tags.push(String::from_str("1"));
    tags.push(String::from_str("2"));
    tags.push(String::from_str("3"));
    tags.push(String::from_str("4"));
    tags.push(String::from_str("5"));
    tags.push(String::from_str("6"));
    tags.push(String::from_str("7"));
    tags.push(String::from_str("8"));
    tags.push(String::from_str("9"));
    tags
}

impl Config {
    /// The configuration is the built-in one.
    pub open spec fn is_built_in(self) -> bool {
        &&& self.border_width == 2
        &&& self.border_focused == 0x6dade3
        &&& self.border_unfocused == 0xbbbbbb
        &&& self.font@ == "monospace:size=10"@
        &&& !self.gaps_enabled
        &&& self.smartgaps_enabled
        &&& self.gap_inner_horizontal == 0
        &&& self.gap_inner_vertical == 0
        &&& self.gap_outer_horizontal == 0
        &&& self.gap_outer_vertical == 0
        &&& self.terminal@ == "st"@
        &&& self.modkey == MOD4
        &&& self.tags@.len() == 9
        &&& forall|place: int| 0 <= place < 9 ==> (#[trigger] self.tags@[place])@ == default_tag(place)
        &&& self.layout_symbols@.len() == 0
        &&& self.keybindings@.len() == 29
        &&& forall|place: int|
            0 <= place < 29 ==> is_default_binding(#[trigger] self.keybindings@[place], place)
        &&& !self.tag_back_and_forth
        &&& self.window_rules@.len() == 0
        &&& self.status_blocks@.len() == 1
        &&& self.status_blocks@[0].format@ == "{}"@
        &&& self.status_blocks@[0].command matches BlockCommand::DateTime(pattern) && pattern@
            == "%a, %b %d - %-I:%M %P"@
        &&& self.status_blocks@[0].interval_secs == 1
        &&& self.status_blocks@[0].color == 0x0db9d7
        &&& self.status_blocks@[0].underline
        &&& self.scheme_normal == (ColorScheme {
            foreground: 0xbbbbbb,
            background: 0x1a1b26,
            underline: 0x444444,
        })
        &&& self.scheme_occupied == (ColorScheme {
            foreground: 0x0db9d7,
            background: 0x1a1b26,
            underline: 0x0db9d7,
        })
        &&& self.scheme_selected == (ColorScheme {
            foreground: 0x0db9d7,
            background: 0x1a1b26,
            underline: 0xad8ee6,
        })
        &&& self.scheme_urgent == (ColorScheme {
            foreground: 0xff5555,
            background: 0x1a1b26,
            underline: 0xff5555,
        })
        &&& self.autostart@.len() == 0
        &&& !self.auto_tile
        &&& !self.hide_vacant_tags
    }
}

impl Default for Config {
    /// The built-in configuration.
    fn default() -> (config: Config)
        ensures
            config.is_built_in(),
    {
        let mut status_blocks: Vec<BlockConfig> = Vec::new();
        status_blocks.push(
            BlockConfig {
                format: String::from_str("{}"),
                command: BlockCommand::DateTime(String::from_str("%a, %b %d - %-I:%M %P")),
                interval_secs: 1,
                color: 0x0db9d7,
                underline: true,
            },
        );
        Config {
            border_width: 2,
            border_focused: 0x6dade3,
            border_unfocused: 0xbbbbbb,
            font: String::from_str("monospace:size=10"),
            gaps_enabled: false,
            smartgaps_enabled: true,
            gap_inner_horizontal: 0,
            gap_inner_vertical: 0,
            gap_outer_horizontal: 0,
            gap_outer_vertical: 0,
            terminal: String::from_str("st"),
            modkey: MOD4,
            tags: default_tags(),
            layout_symbols: Vec::new(),
            keybindings: default_keybindings(),
            tag_back_and_forth: false,
            window_rules: Vec::new(),
            status_blocks,
            scheme_normal: ColorScheme {
                foreground: 0xbbbbbb,
                background: 0x1a1b26,
                underline: 0x444444,
            },
            scheme_occupied: ColorScheme {
                foreground: 0x0db9d7,
                background: 0x1a1b26,
                underline: 0x0db9d7,
            },
            scheme_selected: ColorScheme {
                foreground: 0x0db9d7,
                background: 0x1a1b26,
                underline: 0xad8ee6,
            },
            scheme_urgent: ColorScheme {
                foreground: 0xff5555,
                background: 0x1a1b26,
                underline: 0xff5555,
            },
            autostart: Vec::new(),
            auto_tile: false,
            hide_vacant_tags: false,
        }
    }
}

} // verus!
