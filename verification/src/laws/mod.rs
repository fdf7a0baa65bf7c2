//! What holds of the library as a whole, beyond what each function says of
//! itself.

pub mod calls;
pub mod json;
pub mod operations;
pub mod protocol;
pub mod query;
pub mod registry;
pub mod request;
pub mod routing;
pub mod serving;
pub mod text;
pub mod tools;
pub mod wire;
