//! Scraping support for the SMES venture-company registry: domain types,
//! HTML table parsing, response checks and the captcha pipeline's decisions.
pub mod text;
pub mod error;
pub mod parser;
pub mod types;
pub mod date;
pub mod checks;
pub mod list;
pub mod nopecha;
pub mod picture;
pub mod captcha;
pub mod scrape;
pub mod response;
pub mod pipeline;
pub mod id;

pub use error::SmesError;
pub use error::TypeError;
pub use parser::Table;
pub use date::YYYYMMDD;
pub use list::ListPayload;
pub use list::ListPayloadBuilder;
pub use list::ListResponse;
