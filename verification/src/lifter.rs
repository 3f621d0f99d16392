pub mod builder;
pub mod constructor;
pub mod context;
pub mod error;
pub mod input;
pub mod pattern;
pub mod pcode;
pub mod template;
pub mod varnode;
