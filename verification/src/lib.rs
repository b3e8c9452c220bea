//! A small, verified HTTP request-handling core: a router over method and
//! path, greeting handlers, a JSON body codec, and a bearer-token auth
//! extractor. The surrounding HTTP server hands each request in as plain
//! values (method, path, header bytes, body text) and sends the returned
//! response back out.

pub mod auth;
pub mod handlers;
pub mod json;
pub mod router;
