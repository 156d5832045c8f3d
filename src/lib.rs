//! Turns the loadable segments of an executable image into one flat memory
//! image for a bootloader, together with the entry offset inside that image
//! and its total size.
pub mod segment;
pub mod flatten;
pub mod entry;
pub mod metadata;
pub mod elf_input;
pub mod select;
pub mod pipeline;
