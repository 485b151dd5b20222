//! Runtime type guards for exported type declarations: a compiler from type
//! expressions to boolean check expressions, the collectors that find the
//! exported types and names of a module, and the text of the guard functions.

pub mod compiler;
pub mod guardians;
pub mod model;
pub mod parse_exports;
