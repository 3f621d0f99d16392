pub mod bits;
pub mod codegen;
pub mod disassembly;
pub mod endian;
pub mod lifter;
pub mod partmap;
pub mod pcode;
pub mod processor;
pub mod sleigh;
pub mod text;
