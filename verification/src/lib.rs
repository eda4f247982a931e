//! A minimal request/response engine for a line-oriented, HTTP/1.1-style
//! protocol: parsing a request head (request line plus header block) into a
//! structured value, and serializing a structured response (status line,
//! headers, body) into wire bytes.

pub mod headers;
pub mod request;
pub mod response;
pub mod strutil;
