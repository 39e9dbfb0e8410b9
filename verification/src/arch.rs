pub mod aarch64;
pub mod arm;
pub mod thumb;
pub mod x86_64;
