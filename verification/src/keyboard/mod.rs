//! Keyboard input: bindings, the keychord state machine and the keymap.

pub mod grabs;
pub mod handlers;
pub mod spawn;
pub mod keysyms;

pub use crate::keyboard::handlers::Arg;
pub use crate::keyboard::handlers::KeyAction;
pub use crate::keyboard::handlers::KeyBinding;
pub use crate::keyboard::handlers::KeyPress;
pub use crate::keyboard::handlers::KeyboardMapping;
pub use crate::keyboard::handlers::handle_key_press;
pub use crate::keyboard::grabs::grab_keys;
