//! A code generation backend for a zero-knowledge assembly target: immediate
//! encoding, the register environment, the module's declarations, relocation
//! patching, label renaming and elision, and assembly of the final program
//! text.
pub mod imms;
pub mod isa;
pub mod labels;
pub mod layout;
pub mod module;
pub mod program;
pub mod regs;
pub mod reloc;
pub mod runner;
pub mod text;
