//! Recovery of the user password of encrypted PDF documents from a word
//! list: reading a document's encryption parameters, checking a candidate
//! password against them, searching a dictionary in order, and collecting
//! one outcome per document.

pub mod aes;
pub mod bytes;
pub mod config;
pub mod descriptor;
pub mod extract;
pub mod md5;
pub mod pdf_string;
pub mod pool;
pub mod rc4;
pub mod scan;
pub mod search;
pub mod sha256;
pub mod sha512;
pub mod validator;

pub use crate::descriptor::{EncryptionDescriptor, ExtractError};
pub use crate::extract::extract_from_bytes;
pub use crate::pool::{Aggregator, WorkerEvent, WorkerState};
pub use crate::search::{crack, process_document, CandidateSource, DocumentTask, Outcome};
pub use crate::validator::validate;
