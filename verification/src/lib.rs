//! Control logic for the Maono PD100W wireless microphone receiver.
//!
//! The library holds everything that decides or computes: the vendor HID frame
//! format, the command-line grammar, the status report text, and the state
//! machine behind the interactive panels. Reading and writing the hidraw node,
//! the terminal and the window live with the program that uses it.

pub mod device;
pub mod protocol;
pub mod text;
pub mod words;
pub mod cli;
pub mod report;
pub mod plugin;
pub mod panel;
pub mod targets;
pub mod window;
pub mod theme;
pub mod widgets;
