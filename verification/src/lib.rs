//! Verified core of a small DeepL translation proxy: text chunking, language
//! resolution, request/response shaping and the retry/chunk scheduling rules.

pub mod text;
pub mod chunk;
pub mod lang;
pub mod instance;
pub mod error;
pub mod upstream;
pub mod job;
pub mod api;
