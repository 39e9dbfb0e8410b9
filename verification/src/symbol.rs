pub mod elf;
pub mod memmap;
