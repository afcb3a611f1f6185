//! Editable text-field behavior for a retained-mode UI: cursor arithmetic
//! over segmented text buffers, focus arbitration across competing fields,
//! character admission filtering, and timer-driven key repeat for an
//! on-screen keyboard.

pub mod blink;
pub mod context;
pub mod field;
pub mod filter;
pub mod focus;
pub mod keyboard;
pub mod number_input;
pub mod text;
pub mod tick;
pub mod virtual_keyboard;
