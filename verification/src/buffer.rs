//! The editor buffer: the document's lines, the cursor, the viewport, and
//! the modal selection, with the movement and editing operations the editor
//! drives.

pub mod base;
pub mod editing;
pub mod movement;
pub mod rendering;
pub mod types;
pub mod visual;
