pub mod conversion;
pub mod json;
pub mod protocol;
pub mod server;
pub mod text;
pub mod uri;
