//! Decoding of the nested `DATA.DAT` asset container and of the payload
//! formats found inside it.

pub mod dat;
pub mod errors;
pub mod file;
pub mod text;
