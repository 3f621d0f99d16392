pub mod construct;
pub mod deserialise;
pub mod float_format;
pub mod opcode;
pub mod pattern;
pub mod register;
pub mod space;
pub mod spaces;
pub mod subtable;
pub mod varnode;
