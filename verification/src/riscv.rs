pub mod context;
pub mod expr;
pub mod func;
pub mod inst;
pub mod meta;
pub mod regmap;
pub mod stack;
pub mod var;
pub mod lower;
pub mod eval;
