//! What the overview of the bindings shows: for each of the chief actions
//! its shortest binding, as the keys to press and a line on what they do.

use vstd::prelude::*;
use vstd::string::StringExecFns;
use crate::keyboard::handlers::Arg;
use crate::keyboard::handlers::ArgView;
use crate::keyboard::handlers::KeyAction;
use crate::keyboard::handlers::KeyBinding;
use crate::keyboard::handlers::KeyPress;
use crate::keyboard::keysyms::format_keysym;
use crate::keyboard::keysyms::key_name;
use crate::keyboard::keysyms::CONTROL;
use crate::keyboard::keysyms::MOD1;
use crate::keyboard::keysyms::MOD4;
use crate::keyboard::keysyms::SHIFT;
use crate::keyboard::spawn::decimal;
use crate::keyboard::spawn::decimal_text;

verus! {

/// Name of a held modifier in the overview, for those that it shows: the
/// configured modifier key goes by "Mod", whichever it is.
pub open spec fn held_name(modifier: u16, modkey: u16) -> Option<Seq<char>> {
    if modifier == modkey {
        Some("Mod"@)
    } else if modifier == SHIFT {
        Some("Shift"@)
    } else if modifier == CONTROL {
        Some("Ctrl"@)
    } else if modifier == MOD1 {
        Some("Alt"@)
    } else if modifier == MOD4 {
        Some("Super"@)
    } else {
        None
    }
}

/// The first `count` modifiers of a key press, each one that has a name
/// followed by a plus sign between blanks.
pub open spec fn held_text(modifiers: Seq<u16>, modkey: u16, count: int) -> Seq<char>
    decreases count,
{
    if count <= 0 {
        Seq::empty()
    } else {
        let before = held_text(modifiers, modkey, count - 1);
        match held_name(modifiers[count - 1], modkey) {
            Some(name) => before + name + " + "@,
            None => before,
        }
    }
}

/// A key press as the overview shows it: the modifiers, then the key.
pub open spec fn combo_text(press: KeyPress, modkey: u16) -> Seq<char> {
    held_text(press.modifiers@, modkey, press.modifiers@.len() as int) + key_name(press.keysym)
}

/// A number in decimal digits, with a minus sign where it is negative.
pub open spec fn signed_decimal(number: int) -> Seq<char> {
    if number < 0 {
        seq!['-'] + decimal((-number) as nat)
    } else {
        decimal(number as nat)
    }
}

/// A line with the number of the argument after it, where it has one.
pub open spec fn numbered(line: Seq<char>, arg: ArgView) -> Seq<char> {
    match arg {
        ArgView::Int(number) => line + seq![' '] + signed_decimal(number as int),
        _ => line,
    }
}

/// What an action does, in words; a launch names its program, a change of
/// view its tag.
pub open spec fn description(action: KeyAction, arg: ArgView) -> Seq<char> {
    match action {
        KeyAction::ShowKeybindOverlay => "Show This Keybind Help"@,
        KeyAction::Quit => "Quit Window Manager"@,
        KeyAction::Restart => "Restart Window Manager"@,
        KeyAction::KillClient => "Close Focused Window"@,
        KeyAction::Spawn => match arg {
            ArgView::Str(command) => "Launch: "@ + command,
            ArgView::Array(command) => if command.len() > 0 {
                "Launch: "@ + command[0]
            } else {
                "Launch Program"@
            },
            _ => "Launch Program"@,
        },
        KeyAction::SpawnTerminal => "Launch Terminal"@,
        KeyAction::FocusStack => "Focus Next/Previous Window"@,
        KeyAction::MoveStack => "Move Window Up/Down Stack"@,
        KeyAction::ViewTag => numbered("View Workspace"@, arg),
        KeyAction::ViewNextTag => "View Next Workspace"@,
        KeyAction::ViewPreviousTag => "View Previous Workspace"@,
        KeyAction::ViewNextNonEmptyTag => "View Next Non-Empty Workspace"@,
        KeyAction::ViewPreviousNonEmptyTag => "View Previous Non-Empty Workspace"@,
        KeyAction::ToggleView => numbered("Toggle View Workspace"@, arg),
        KeyAction::MoveToTag => "Move Window to Workspace"@,
        KeyAction::ToggleTag => "Toggle Window on Workspace"@,
        KeyAction::ToggleGaps => "Toggle Window Gaps"@,
        KeyAction::ToggleFullScreen => "Toggle Fullscreen Mode"@,
        KeyAction::ToggleFloating => "Toggle Floating Mode"@,
        KeyAction::ChangeLayout => "Change Layout"@,
        KeyAction::CycleLayout => "Cycle Through Layouts"@,
        KeyAction::FocusMonitor => "Focus Next Monitor"@,
        KeyAction::TagMonitor => "Send Window to Monitor"@,
        KeyAction::SetMasterFactor => "Adjust Master Area Size"@,
        KeyAction::IncNumMaster => "Adjust Number of Master Windows"@,
        KeyAction::NoAction => "No Action"@,
    }
}

/// The actions that the overview shows, in its order.
pub open spec fn chief_actions() -> Seq<KeyAction> {
    seq![
        KeyAction::ShowKeybindOverlay,
        KeyAction::Quit,
        KeyAction::Restart,
        KeyAction::KillClient,
        KeyAction::Spawn,
        KeyAction::SpawnTerminal,
        KeyAction::ToggleFullScreen,
        KeyAction::ToggleFloating,
        KeyAction::CycleLayout,
        KeyAction::FocusStack,
        KeyAction::ViewTag,
    ]
}

/// The binding at `place` is the one shown for the action: it fires the
/// action, no binding for the action has fewer keys, and of those with as
/// few it comes first.
pub open spec fn is_shown_for(bindings: Seq<KeyBinding>, action: KeyAction, place: int) -> bool {
    &&& 0 <= place < bindings.len()
    &&& bindings[place].func == action
    &&& forall|other: int|
        0 <= other < bindings.len() && (#[trigger] bindings[other]).func == action ==> {
            ||| bindings[place].keys@.len() < bindings[other].keys@.len()
            ||| bindings[place].keys@.len() == bindings[other].keys@.len() && place <= other
        }
}

/// No binding fires the action.
pub open spec fn is_unbound(bindings: Seq<KeyBinding>, action: KeyAction) -> bool {
    forall|other: int| 0 <= other < bindings.len() ==> (#[trigger] bindings[other]).func != action
}

/// At most one binding is the one shown for an action.
pub proof fn lemma_shown_once(
    bindings: Seq<KeyBinding>,
    action: KeyAction,
    first: int,
    second: int,
)
    requires
        is_shown_for(bindings, action, first),
        is_shown_for(bindings, action, second),
    ensures
        first == second,
{
    assert(bindings[first].func == action);
    assert(bindings[second].func == action);
}

/// The place of the binding shown for an action, if a binding fires it.
pub open spec fn shown_for(bindings: Seq<KeyBinding>, action: KeyAction) -> Option<int> {
    if exists|place: int| is_shown_for(bindings, action, place) {
        Some(choose|place: int| is_shown_for(bindings, action, place))
    } else {
        None
    }
}

/// The line of the overview for a binding: its first key press and what its
/// action does.
pub open spec fn line_of(binding: KeyBinding, modkey: u16) -> (Seq<char>, Seq<char>) {
    (combo_text(binding.keys@[0], modkey), description(binding.func, binding.arg@))
}

/// The line of the overview for an action: that of the binding shown for
/// it, if there is one and it has a key.
pub open spec fn line_for(bindings: Seq<KeyBinding>, action: KeyAction, modkey: u16) -> Option<
    (Seq<char>, Seq<char>),
> {
    match shown_for(bindings, action) {
        Some(place) => if bindings[place].keys@.len() > 0 {
            Some(line_of(bindings[place], modkey))
        } else {
            None
        },
        None => None,
    }
}

/// The overview of the first `count` chief actions: the lines of those
/// that have one, in the order of the actions.
pub open spec fn overview(bindings: Seq<KeyBinding>, modkey: u16, count: int) -> Seq<
    (Seq<char>, Seq<char>),
>
    decreases count,
{
    if count <= 0 {
        Seq::empty()
    } else {
        let before = overview(bindings, modkey, count - 1);
        match line_for(bindings, chief_actions()[count - 1], modkey) {
            Some(line) => before.push(line),
            None => before,
        }
    }
}

/// What the lines of an overview hold.
pub open spec fn lines_text(lines: Seq<(String, String)>) -> Seq<(Seq<char>, Seq<char>)> {
    lines.map_values(|line: (String, String)| (line.0@, line.1@))
}

/// Computes `held_name`.
fn name_of_held(modifier: u16, modkey: u16) -> (name: Option<&'static str>)
    ensures
        match name {
            Some(text) => held_name(modifier, modkey) == Some(text@),
            None => held_name(modifier, modkey).is_none(),
        },
{
    if modifier == modkey {
        Some("Mod")
    } else if modifier == SHIFT {
        Some("Shift")
    } else if modifier == CONTROL {
        Some("Ctrl")
    } else if modifier == MOD1 {
        Some("Alt")
    } else if modifier == MOD4 {
        Some("Super")
    } else {
        None
    }
}

/// Computes `combo_text`.
pub fn format_key_combo(press: &KeyPress, modkey: u16) -> (text: String)
    ensures
        text@ == combo_text(*press, modkey),
{
    let mut text = String::new();
    let mut index: usize = 0;
    assert(text@ =~= held_text(press.modifiers@, modkey, 0));
    while index < press.modifiers.len()
        invariant
            index <= press.modifiers@.len(),
            text@ == held_text(press.modifiers@, modkey, index as int),
        decreases press.modifiers@.len() - index,
    {
        let ghost before = text@;
        match name_of_held(press.modifiers[index], modkey) {
            Some(name) => {
                text.append(name);
                text.append(" + ");
                assert(text@ =~= before + name@ + " + "@);
            },
            None => {},
        }
        index += 1;
    }
    let key = format_keysym(press.keysym);
    text.append(key.as_str());
    text
}

/// Computes `signed_decimal`.
pub fn signed_text(number: i32) -> (text: String)
    ensures
        text@ == signed_decimal(number as int),
{
    if number < 0 {
        let size: i64 = -(number as i64);
        let digits = decimal_text(size as usize);
        let mut text = String::from_str("-");
        proof {
            reveal_strlit("-");
            assert(text@ =~= seq!['-']);
        }
        text.append(digits.as_str());
        text
    } else {
        decimal_text(number as usize)
    }
}

/// Computes `numbered`.
fn number_line(line: &str, arg: &Arg) -> (text: String)
    ensures
        text@ == numbered(line@, arg@),
{
    let mut text = String::from_str(line);
    match arg {
        Arg::Int(number) => {
            let digits = signed_text(*number);
            text.append(" ");
            proof {
                reveal_strlit(" ");
                assert(" "@ =~= seq![' ']);
            }
            text.append(digits.as_str());
        },
        _ => {},
    }
    text
}

/// The line on a launch, which names the program.
fn launch_line(arg: &Arg) -> (text: String)
    ensures
        text@ == description(KeyAction::Spawn, arg@),
{
    match arg {
        Arg::Str(command) => {
            let mut text = String::from_str("Launch: ");
            text.append(command.as_str());
            text
        },
        Arg::Array(command) => {
            if command.len() > 0 {
                let mut text = String::from_str("Launch: ");
                text.append(command[0].as_str());
                text
            } else {
                String::from_str("Launch Program")
            }
        },
        _ => String::from_str("Launch Program"),
    }
}

/// Computes `description`.
pub fn action_description(binding: &KeyBinding) -> (text: String)
    ensures
        text@ == description(binding.func, binding.arg@),
{
    match binding.func {
        KeyAction::ShowKeybindOverlay => String::from_str("Show This Keybind Help"),
        KeyAction::Quit => String::from_str("Quit Window Manager"),
        KeyAction::Restart => String::from_str("Restart Window Manager"),
        KeyAction::KillClient => String::from_str("Close Focused Window"),
        KeyAction::Spawn => launch_line(&binding.arg),
        KeyAction::SpawnTerminal => String::from_str("Launch Terminal"),
        KeyAction::FocusStack => String::from_str("Focus Next/Previous Window"),
        KeyAction::MoveStack => String::from_str("Move Window Up/Down Stack"),
        KeyAction::ViewTag => number_line("View Workspace", &binding.arg),
        KeyAction::ViewNextTag => String::from_str("View Next Workspace"),
        KeyAction::ViewPreviousTag => String::from_str("View Previous Workspace"),
        KeyAction::ViewNextNonEmptyTag => String::from_str("View Next Non-Empty Workspace"),
        KeyAction::ViewPreviousNonEmptyTag => String::from_str(
            "View Previous Non-Empty Workspace",
        ),
        KeyAction::ToggleView => number_line("Toggle View Workspace", &binding.arg),
        KeyAction::MoveToTag => String::from_str("Move Window to Workspace"),
        KeyAction::ToggleTag => String::from_str("Toggle Window on Workspace"),
        KeyAction::ToggleGaps => String::from_str("Toggle Window Gaps"),
        KeyAction::ToggleFullScreen => String::from_str("Toggle Fullscreen Mode"),
        KeyAction::ToggleFloating => String::from_str("Toggle Floating Mode"),
        KeyAction::ChangeLayout => String::from_str("Change Layout"),
        KeyAction::CycleLayout => String::from_str("Cycle Through Layouts"),
        KeyAction::FocusMonitor => String::from_str("Focus Next Monitor"),
        KeyAction::TagMonitor => String::from_str("Send Window to Monitor"),
        KeyAction::SetMasterFactor => String::from_str("Adjust Master Area Size"),
        KeyAction::IncNumMaster => String::from_str("Adjust Number of Master Windows"),
        KeyAction::NoAction => String::from_str("No Action"),
    }
}

/// The chief action at a place of the overview.
fn chief_action(place: usize) -> (action: KeyAction)
    requires
        place < chief_actions().len(),
    ensures
        action == chief_actions()[place as int],
{
    if place == 0 {
        KeyAction::ShowKeybindOverlay
    } else if place == 1 {
        KeyAction::Quit
    } else if place == 2 {
        KeyAction::Restart
    } else if place == 3 {
        KeyAction::KillClient
    } else if place == 4 {
        KeyAction::Spawn
    } else if place == 5 {
        KeyAction::SpawnTerminal
    } else if place == 6 {
        KeyAction::ToggleFullScreen
    } else if place == 7 {
        KeyAction::ToggleFloating
    } else if place == 8 {
        KeyAction::CycleLayout
    } else if place == 9 {
        KeyAction::FocusStack
    } else {
        KeyAction::ViewTag
    }
}

/// The binding shown for an action, if one fires it.
pub fn find_shown(bindings: &[KeyBinding], action: KeyAction) -> (found: Option<usize>)
    ensures
        match found {
            Some(place) => shown_for(bindings@, action) == Some(place as int),
            None => shown_for(bindings@, action).is_none(),
        },
        found.is_some() ==> found.unwrap() < bindings@.len(),
{
    let mut found: Option<usize> = None;
    let mut index: usize = 0;
    while index < bindings.len()
        invariant
            index <= bindings@.len(),
            match found {
                Some(place) => is_shown_for(bindings@.take(index as int), action, place as int),
                None => is_unbound(bindings@.take(index as int), action),
            },
        decreases bindings@.len() - index,
    {
        let ghost seen = bindings@.take(index as int);
        let ghost next = bindings@.take(index + 1);
        assert(forall|k: int| 0 <= k < index ==> next[k] == seen[k]);
        assert(next[index as int] == bindings@[index as int]);
        if bindings[index].func == action {
            match found {
                Some(place) => {
                    if bindings[index].keys.len() < bindings[place].keys.len() {
                        found = Some(index);
                    }
                },
                None => {
                    found = Some(index);
                },
            }
        }
        index += 1;
        proof {
            match found {
                Some(place) => {
                    assert forall|other: int|
                        0 <= other < next.len() && (#[trigger] next[other]).func == action implies {
                        ||| next[place as int].keys@.len() < next[other].keys@.len()
                        ||| next[place as int].keys@.len() == next[other].keys@.len() && place
                            <= other
                    } by {
                        if other < index - 1 {
                            assert(seen[other].func == action);
                        }
                    }
                },
                None => {
                    assert forall|other: int| 0 <= other < next.len() implies (
                    #[trigger] next[other]).func != action by {
                        if other < index - 1 {
                            assert(seen[other].func != action);
                        }
                    }
                },
            }
        }
    }
    assert(bindings@.take(index as int) =~= bindings@);
    proof {
        match found {
            Some(place) => {
                let chosen = choose|chosen: int| is_shown_for(bindings@, action, chosen);
                lemma_shown_once(bindings@, action, place as int, chosen);
            },
            None => {
                assert forall|place: int| !is_shown_for(bindings@, action, place) by {
                    if 0 <= place < bindings@.len() {
                        assert(bindings@[place].func != action);
                    }
                }
            },
        }
    }
    found
}

/// The overview of the bindings: for each chief action that has a binding,
/// and whose shortest binding has a key, the first key press of that
/// binding and what the action does.
pub fn collect_keybindings(bindings: &[KeyBinding], modkey: u16) -> (lines: Vec<(String, String)>)
    ensures
        lines_text(lines@) == overview(bindings@, modkey, chief_actions().len() as int),
{
    let mut lines: Vec<(String, String)> = Vec::new();
    let mut index: usize = 0;
    assert(lines_text(lines@) =~= overview(bindings@, modkey, 0));
    while index < 11
        invariant
            index <= 11,
            chief_actions().len() == 11,
            lines_text(lines@) == overview(bindings@, modkey, index as int),
        decreases 11 - index,
    {
        let action = chief_action(index);
        let ghost before = lines@;
        match find_shown(bindings, action) {
            Some(place) => {
                if bindings[place].keys.len() > 0 {
                    let keys = format_key_combo(&bindings[place].keys[0], modkey);
                    let what = action_description(&bindings[place]);
                    lines.push((keys, what));
                    assert(lines_text(lines@) =~= lines_text(before).push(
                        line_of(bindings@[place as int], modkey),
                    ));
                }
            },
            None => {},
        }
        index += 1;
    }
    lines
}

} // verus!
