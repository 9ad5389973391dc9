//! Finding a file by name in a directory tree, and handing its bytes on to a
//! remote endpoint.
pub mod error;
pub mod locator;
pub mod pipeline;
pub mod search;
pub mod text;
pub mod theorems;
pub mod transmit;
pub mod tree;
