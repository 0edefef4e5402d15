//! The key grabs that the bindings need at one depth of a chord.

use vstd::prelude::*;
use crate::keyboard::handlers::KeyBinding;
use crate::keyboard::handlers::KeyboardMapping;
use crate::keyboard::handlers::modifier_mask;
use crate::keyboard::handlers::modifiers_to_mask;
use crate::keyboard::keysyms::Keycode;
use crate::keyboard::keysyms::LOCK;
use crate::keyboard::keysyms::MOD2;
use crate::keyboard::keysyms::XK_ESCAPE;

verus! {

/// Modifier value of a grab that holds under any modifiers.
pub const ANY_MODIFIER: u16 = 0x8000;

/// A key to grab on the root window, under a modifier state.
#[derive(Clone, Copy, Debug, PartialEq, Eq, Structural)]
pub struct KeyGrab {
    pub modifiers: u16,
    pub keycode: Keycode,
}

/// The grabs of one key under one modifier mask: one for each state of
/// the lock modifiers, which are not to matter.
pub open spec fn lock_variants(mask: u16, keycode: Keycode) -> Seq<KeyGrab> {
    seq![
        KeyGrab { modifiers: mask, keycode },
        KeyGrab { modifiers: mask | LOCK, keycode },
        KeyGrab { modifiers: mask | MOD2, keycode },
        KeyGrab { modifiers: mask | (LOCK | MOD2), keycode },
    ]
}

/// The grabs that a binding needs on key code `keycode` at depth `depth`:
/// those of its key at that depth, if the key code sends that key.
pub open spec fn binding_grabs(
    binding: KeyBinding,
    depth: usize,
    mapping: KeyboardMapping,
    keycode: Keycode,
) -> Seq<KeyGrab> {
    if depth < binding.keys@.len() && binding.keys@[depth as int].keysym == mapping.symbol(keycode) {
        lock_variants(modifier_mask(binding.keys@[depth as int].modifiers@), keycode)
    } else {
        Seq::empty()
    }
}

/// The grabs that the first `count` bindings need on one key code.
pub open spec fn keycode_grabs(
    keybindings: Seq<KeyBinding>,
    count: int,
    depth: usize,
    mapping: KeyboardMapping,
    keycode: Keycode,
) -> Seq<KeyGrab>
    decreases count,
{
    if count <= 0 {
        Seq::empty()
    } else {
        keycode_grabs(keybindings, count - 1, depth, mapping, keycode) + binding_grabs(
            keybindings[count - 1],
            depth,
            mapping,
            keycode,
        )
    }
}

/// The grabs that the bindings need on the key codes from `min_keycode`
/// up to, not including, `next`.
pub open spec fn grabs_before(
    keybindings: Seq<KeyBinding>,
    depth: usize,
    mapping: KeyboardMapping,
    min_keycode: Keycode,
    next: int,
) -> Seq<KeyGrab>
    decreases next - min_keycode,
{
    if next <= min_keycode || next > 256 {
        Seq::empty()
    } else {
        grabs_before(keybindings, depth, mapping, min_keycode, next - 1) + keycode_grabs(
            keybindings,
            keybindings.len() as int,
            depth,
            mapping,
            (next - 1) as Keycode,
        )
    }
}

/// The grab of the cancel key, which a chord in progress needs under any
/// modifiers: that of the least key code in range that sends Escape.
pub open spec fn cancel_grab(
    depth: usize,
    mapping: KeyboardMapping,
    min_keycode: Keycode,
    max_keycode: Keycode,
    grab: Option<KeyGrab>,
) -> bool {
    match grab {
        Some(found) => depth > 0 && found.modifiers == ANY_MODIFIER && min_keycode
            <= found.keycode <= max_keycode && mapping.sends(found.keycode, XK_ESCAPE)
            && forall|other: Keycode|
            min_keycode <= other < found.keycode ==> !mapping.sends(other, XK_ESCAPE),
        None => depth == 0 || forall|other: Keycode|
            min_keycode <= other <= max_keycode ==> !mapping.sends(other, XK_ESCAPE),
    }
}

/// Adds the grabs that the bindings need on one key code.
fn grab_keycode(
    keybindings: &[KeyBinding],
    depth: usize,
    mapping: &KeyboardMapping,
    keycode: Keycode,
    grabs: &mut Vec<KeyGrab>,
)
    ensures
        final(grabs)@ == old(grabs)@ + keycode_grabs(
            keybindings@,
            keybindings@.len() as int,
            depth,
            *mapping,
            keycode,
        ),
{
    let ghost start = grabs@;
    let keysym = mapping.keycode_to_keysym(keycode);
    let mut index: usize = 0;
    while index < keybindings.len()
        invariant
            index <= keybindings@.len(),
            keysym == mapping.symbol(keycode),
            grabs@ == start + keycode_grabs(keybindings@, index as int, depth, *mapping, keycode),
        decreases keybindings@.len() - index,
    {
        let binding = &keybindings[index];
        if depth < binding.keys.len() && binding.keys[depth].keysym == keysym {
            let mask = modifiers_to_mask(binding.keys[depth].modifiers.as_slice());
            grabs.push(KeyGrab { modifiers: mask, keycode });
            grabs.push(KeyGrab { modifiers: mask | LOCK, keycode });
            grabs.push(KeyGrab { modifiers: mask | MOD2, keycode });
            grabs.push(KeyGrab { modifiers: mask | (LOCK | MOD2), keycode });
        }
        assert(grabs@ =~= start + keycode_grabs(
            keybindings@,
            index + 1,
            depth,
            *mapping,
            keycode,
        ));
        index += 1;
    }
}

/// The keys to grab for the bindings at depth `current_key` of a chord,
/// on a keyboard with the key codes from `min_keycode` to `max_keycode`:
/// for each key code in turn and each binding in turn, the key of the
/// binding at that depth under its modifiers, once for each state of the
/// lock modifiers; and, in a chord, the cancel key under any modifiers.
pub fn grab_keys(
    keybindings: &[KeyBinding],
    current_key: usize,
    mapping: &KeyboardMapping,
    min_keycode: Keycode,
    max_keycode: Keycode,
) -> (grabs: Vec<KeyGrab>)
    ensures
        exists|cancel: Option<KeyGrab>|
            #![auto]
            cancel_grab(current_key, *mapping, min_keycode, max_keycode, cancel) && grabs@
                == grabs_before(keybindings@, current_key, *mapping, min_keycode, max_keycode + 1)
                + match cancel {
                Some(grab) => seq![grab],
                None => Seq::empty(),
            },
{
    let mut grabs: Vec<KeyGrab> = Vec::new();
    let mut next: u16 = min_keycode as u16;
    while next <= max_keycode as u16
        invariant
            min_keycode <= next <= max_keycode + 1 || next == min_keycode,
            grabs@ == grabs_before(keybindings@, current_key, *mapping, min_keycode, next as int),
        decreases max_keycode + 1 - next,
    {
        grab_keycode(keybindings, current_key, mapping, next as Keycode, &mut grabs);
        next += 1;
    }
    assert(grabs@ == grabs_before(
        keybindings@,
        current_key,
        *mapping,
        min_keycode,
        max_keycode + 1,
    )) by {
        if next != max_keycode + 1 {
            assert(min_keycode > max_keycode);
        }
    }
    let ghost listed = grabs@;
    let cancel: Option<KeyGrab> = if current_key > 0 {
        match mapping.find_keycode(XK_ESCAPE, min_keycode, max_keycode) {
            Some(keycode) => Some(KeyGrab { modifiers: ANY_MODIFIER, keycode }),
            None => None,
        }
    } else {
        None
    };
    match cancel {
        Some(grab) => {
            grabs.push(grab);
        },
        None => {},
    }
    assert(cancel_grab(current_key, *mapping, min_keycode, max_keycode, cancel));
    assert(grabs@ =~= listed + match cancel {
        Some(grab) => seq![grab],
        None => Seq::empty(),
    });
    grabs
}

} // verus!
