//! Native functions and classes for a JavaScript engine: the code that binds the parameters of a
//! native function to the arguments of a call, and the steps by which a class and its objects are
//! made.
pub mod attribute;
pub mod class;
pub mod laws;
pub mod parameter;
pub mod parameters;
pub mod statement;
pub mod syntax;
pub mod text;
pub mod this;
pub mod types;
pub mod views;
pub mod visitors;
