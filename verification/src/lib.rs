//! Request-handling logic of the EmailBrain backend: configuration parsing,
//! validation, JSON shaping of upstream chat replies, and the chat workflow.

pub mod text;
pub mod json;
pub mod error;
pub mod config;
pub mod origins;
pub mod email;
pub mod adapter;
pub mod chat;
pub mod storage;
