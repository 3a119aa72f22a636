//! The post record and its error, under one roof.

pub use crate::error::BlogPostError;
pub use crate::post::BlogPost;
