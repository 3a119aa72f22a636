//! Blog posts from markdown files with a metadata header: the header parser,
//! the code-block highlighter over the markdown event stream, and the listing
//! that orders posts newest first.

pub mod date;
pub mod error;
pub mod frontmatter;
pub mod highlight;
pub mod markdown;
pub mod models;
pub mod post;
pub mod text;
