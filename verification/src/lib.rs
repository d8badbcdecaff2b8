//! Sopipe: a scriptable stream-processing engine.
//!
//! The library holds the pipeline compiler, the argument model, the per-stream
//! metadata bag, the decisions of the actor runtime and the byte-level logic of
//! the stock components.

pub mod address;
pub mod aead;
pub mod argument;
pub mod auth;
pub mod balance;
pub mod bytes;
pub mod components;
pub mod discard;
pub mod echo;
pub mod endpoints;
pub mod error;
pub mod helper;
pub mod http2;
pub mod lexer;
pub mod metadata;
pub mod miniz;
pub mod primitives;
pub mod process;
pub mod runtime;
pub mod script;
pub mod socks5;
pub mod stdio;
pub mod syntax;
pub mod tcp;
pub mod tee;
pub mod text;
pub mod throttle;
pub mod udp;
pub mod vmess;
pub mod xor;
