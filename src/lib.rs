//! Frame-based sprite animation driven by spritesheet exports of a
//! pixel-art editor: the sheet's data model, the loading of exported data
//! into it, and a per-sprite playback state machine.
//!
//! Times are whole microseconds and rates are thousandths of the normal
//! rate, so that playback is exact; anchors are exact ratios.

pub mod anchor;
pub mod animator;
pub mod aseprite_data;
pub mod playback;
pub mod sprite;
pub mod sprite_animator;
pub mod timeline;
