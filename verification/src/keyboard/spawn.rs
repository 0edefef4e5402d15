//! The command that a spawn action starts.

use vstd::prelude::*;
use vstd::string::StringExecFns;
use crate::keyboard::handlers::Arg;
use crate::keyboard::handlers::KeyAction;
use crate::text::contains_text;
use crate::text::occurs_in;
use crate::text::push_char;
use crate::text::same_text;

verus! {

/// A command to start.
#[derive(Debug)]
pub enum SpawnCommand {
    /// A line for the shell.
    Shell(String),
    /// A program with its arguments.
    Program { command: String, arguments: Vec<String> },
}

/// The character of a decimal digit.
pub open spec fn digit(value: int) -> char {
    if value == 0 {
        '0'
    } else if value == 1 {
        '1'
    } else if value == 2 {
        '2'
    } else if value == 3 {
        '3'
    } else if value == 4 {
        '4'
    } else if value == 5 {
        '5'
    } else if value == 6 {
        '6'
    } else if value == 7 {
        '7'
    } else if value == 8 {
        '8'
    } else {
        '9'
    }
}

/// A number in decimal digits.
pub open spec fn decimal(number: nat) -> Seq<char>
    decreases number,
{
    if number < 10 {
        seq![digit(number as int)]
    } else {
        decimal(number / 10).push(digit((number % 10) as int))
    }
}

/// Computes `digit`.
fn digit_of(value: usize) -> (character: char)
    requires
        value < 10,
    ensures
        character == digit(value as int),
{
    if value == 0 {
        '0'
    } else if value == 1 {
        '1'
    } else if value == 2 {
        '2'
    } else if value == 3 {
        '3'
    } else if value == 4 {
        '4'
    } else if value == 5 {
        '5'
    } else if value == 6 {
        '6'
    } else if value == 7 {
        '7'
    } else if value == 8 {
        '8'
    } else {
        '9'
    }
}

/// Writes a number in decimal digits.
pub fn decimal_text(number: usize) -> (text: String)
    ensures
        text@ == decimal(number as nat),
    decreases number,
{
    if number < 10 {
        let mut text = String::new();
        push_char(&mut text, digit_of(number));
        assert(text@ =~= decimal(number as nat));
        text
    } else {
        let mut text = decimal_text(number / 10);
        push_char(&mut text, digit_of(number % 10));
        text
    }
}

/// The texts of a list.
pub open spec fn texts(list: Seq<String>) -> Seq<Seq<char>> {
    list.map_values(|text: String| text@)
}

/// The flag "-m" is among the arguments from place `from` on.
pub open spec fn names_monitor(arguments: Seq<String>, from: int) -> bool
    decreases arguments.len() - from,
{
    if from < 0 || from >= arguments.len() {
        false
    } else {
        arguments[from]@ == "-m"@ || names_monitor(arguments, from + 1)
    }
}

/// The program is a menu that is to open on the selected monitor: its
/// name holds "dmenu" and no argument names a monitor.
pub open spec fn wants_monitor(command: Seq<String>) -> bool {
    command.len() > 0 && occurs_in("dmenu"@, command[0]@) && !names_monitor(command, 1)
}

/// The arguments with which a program is started: its own, after the flag
/// for the selected monitor where the program wants it.
pub open spec fn arguments_for(command: Seq<String>, selected_monitor: usize) -> Seq<Seq<char>> {
    let own = texts(command.subrange(1, command.len() as int));
    if wants_monitor(command) {
        seq!["-m"@, decimal(selected_monitor as nat)] + own
    } else {
        own
    }
}

/// `started` is the command that a spawn action with the argument `arg`
/// starts: the text as a line for the shell, or the list as a program
/// with its arguments; nothing for another action, another argument or an
/// empty list.
pub open spec fn spawns(
    action: KeyAction,
    arg: Arg,
    selected_monitor: usize,
    started: Option<SpawnCommand>,
) -> bool {
    if action != KeyAction::Spawn {
        started.is_none()
    } else {
        match arg {
            Arg::Str(line) => started matches Some(SpawnCommand::Shell(text)) && text@ == line@,
            Arg::Array(command) => if command@.len() == 0 {
                started.is_none()
            } else {
                started matches Some(SpawnCommand::Program { command: program, arguments })
                    && program@ == command@[0]@ && texts(arguments@) == arguments_for(
                    command@,
                    selected_monitor,
                )
            },
            _ => started.is_none(),
        }
    }
}

/// Computes `names_monitor` from the second place on.
fn has_monitor_flag(command: &Vec<String>) -> (found: bool)
    ensures
        found == names_monitor(command@, 1),
{
    let mut index: usize = 1;
    while index < command.len()
        invariant
            1 <= index,
            names_monitor(command@, 1) == names_monitor(command@, index as int),
        decreases command@.len() - index,
    {
        if same_text(command[index].as_str(), "-m") {
            return true;
        }
        index += 1;
    }
    false
}

/// The command that an action starts, if it is a spawn action.
pub fn handle_spawn_action(action: KeyAction, arg: &Arg, selected_monitor: usize) -> (started: Option<
    SpawnCommand,
>)
    ensures
        spawns(action, *arg, selected_monitor, started),
{
    match action {
        KeyAction::Spawn => {},
        _ => {
            return None;
        },
    }
    match arg {
        Arg::Str(line) => Some(SpawnCommand::Shell(line.clone())),
        Arg::Array(command) => {
            if command.len() == 0 {
                return None;
            }
            let program = command[0].clone();
            let mut arguments: Vec<String> = Vec::new();
            let wants = contains_text(command[0].as_str(), "dmenu") && !has_monitor_flag(command);
            if wants {
                arguments.push(String::from_str("-m"));
                arguments.push(decimal_text(selected_monitor));
            }
            let ghost head = texts(arguments@);
            assert(head =~= if wants_monitor(command@) {
                seq!["-m"@, decimal(selected_monitor as nat)]
            } else {
                Seq::empty()
            });
            let mut index: usize = 1;
            while index < command.len()
                invariant
                    1 <= index <= command@.len(),
                    texts(arguments@) == head + texts(command@.subrange(1, index as int)),
                decreases command@.len() - index,
            {
                let ghost sofar = arguments@;
                arguments.push(command[index].clone());
                proof {
                    assert(command@.subrange(1, index + 1) =~= command@.subrange(
                        1,
                        index as int,
                    ).push(command@[index as int]));
                    assert(texts(arguments@) =~= texts(sofar).push(command@[index as int]@));
                    assert(texts(command@.subrange(1, index + 1)) =~= texts(
                        command@.subrange(1, index as int),
                    ).push(command@[index as int]@));
                }
                assert(texts(arguments@) =~= head + texts(command@.subrange(1, index + 1)));
                index += 1;
            }
            assert(texts(arguments@) =~= arguments_for(command@, selected_monitor));
            Some(SpawnCommand::Program { command: program, arguments })
        },
        _ => None,
    }
}

} // verus!
