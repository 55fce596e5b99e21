//! Instruction-level emulator for a 16-lane SIMD shader core: a 64-bit
//! composite-instruction decoder, a dual (add + multiply) ALU datapath with
//! per-lane predication, memory-mapped peripheral ports, and a VPM scratchpad
//! with DMA block transfers.
pub mod alu;
pub mod bits;
pub mod constants;
pub mod errors;
pub mod executors;
pub mod floatops;
pub mod instructions;
pub mod processor;
