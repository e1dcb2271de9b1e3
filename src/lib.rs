//! A small byte-code virtual machine: a flat byte memory, ten 16-bit
//! registers kept in their own byte buffer, and a fetch-decode-execute step.
pub mod cpu;
pub mod instructions;
pub mod laws;
pub mod memory;
