//! Verified core of the Cangjie language extension: SDK and server path
//! resolution, `cjpm.toml` reading, editor labels, proxy download decisions
//! and the helper logic of the LSP proxy.

pub mod text;
pub mod util;
pub mod config;
pub mod lsp_server;
pub mod proxy;
pub mod cangjie;
pub mod log;
pub mod lsp_proxy;
