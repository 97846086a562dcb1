//! Verified core of a chunked, Dropzone-style upload server: HTTP Basic
//! authentication, the command-line grammar, multipart field handling, the
//! decisions of a chunk upload, file name sanitizing and the self-signed TLS
//! setup.

pub mod auth;
pub mod cli;
pub mod flow;
pub mod reply;
pub mod text;
pub mod tls;
pub mod unicode;
pub mod upload;

pub use cli::Cli;
pub use reply::Reply;
pub use upload::{sanitize_filename, UploadDir};
