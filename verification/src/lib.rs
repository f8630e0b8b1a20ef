pub mod errors;
pub mod laws;
pub mod path;
pub mod resolve;
pub mod value;

pub use errors::ResolveError;
pub use resolve::resolve_op_value;
pub use value::parse_value;
pub use value::GenericValue;
