//! Generation of AssemblyScript and TypeScript bindings from WITX interface
//! descriptions, with every piece of generated text specified and proved.

pub mod assemblyscript;
pub mod astype;
pub mod document;
pub mod pretty_writer;
pub mod text;
pub mod variant;
