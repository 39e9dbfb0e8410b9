pub mod arm_decoder;
pub mod hde64;
