//! Response decoding and redirect following for a blocking HTTP/1.1 client,
//! working on byte buffers that the transport has already filled.

pub mod outside;
pub mod text;
pub mod error;
pub mod parse;
pub mod headers;
pub mod items;
pub mod framing;
pub mod body_reader;
pub mod compressed_reader;
pub mod redirect;
pub mod response;
pub mod wire;
