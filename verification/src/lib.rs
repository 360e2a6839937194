//! The logic of the riggen robot assembler's application shell: the
//! command line, the window's modes and tools, the visibility row, the
//! file-drop bookkeeping and the unsaved-changes guard, each with the
//! contract it keeps.

pub mod mode;
pub mod text;
pub mod tool;
pub mod vcs_info;
pub mod arrows;
pub mod cli;
pub mod debug;
pub mod document;
pub mod download;
pub mod example;
pub mod file_io;
pub mod file_menu;
pub mod gizmo;
pub mod jobs;
pub mod names;
pub mod overlays;
pub mod properties;
pub mod selection;
pub mod shortcuts;
pub mod snap;
