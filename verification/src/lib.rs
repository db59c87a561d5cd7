//! The logic of the fluxvt terminal emulator: the screen, the control
//! functions that change it, the replies it gives, and the frame it shows.

pub mod answers;
pub mod bounds;
pub mod cell;
pub mod clipboard;
pub mod color;
pub mod csi;
pub mod editing;
pub mod erase;
pub mod frame;
pub mod grid;
pub mod integrity;
pub mod interface;
pub mod laws;
pub mod model;
pub mod motion;
pub mod osc;
pub mod picture;
pub mod rendition;
pub mod reply;
pub mod sgr;
pub mod stream;
pub mod terminal;
pub mod transcript;
pub mod window;

