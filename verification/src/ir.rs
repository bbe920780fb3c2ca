pub mod block;
pub mod func;
pub mod meta;
pub mod expr;
pub mod stdlib;
pub mod arr;
pub mod program;
pub mod irgen;
pub mod stmtgen;
pub mod declgen;
pub mod funcgen;
