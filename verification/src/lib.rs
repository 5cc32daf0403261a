pub mod errors;
pub mod parser;
pub mod resolve;
pub mod scheme;
pub mod text;

pub use errors::AppError;
pub use parser::Url;
pub use resolve::Endpoint;
pub use resolve::order_endpoints;
pub use scheme::Scheme;
