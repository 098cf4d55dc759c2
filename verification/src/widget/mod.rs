//! Terminal widget logic: key translation, row layout, cursor blink, and the
//! shell output batching of the I/O loop.

pub mod blink;
pub mod keys;
pub mod output;
pub mod segments;
