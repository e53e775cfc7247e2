//! A verified core for a chapter-crawling archiver: walking a linear chain of
//! pages, deriving chapter names and run targets from URLs, relaying chapters
//! through a bounded drop-oldest channel, and turning them into archive entries.

pub mod errors;
pub mod textnorm;
pub mod target;
pub mod chapter;
pub mod extract;
pub mod urlpath;
pub mod relay;
pub mod walker;
pub mod archive;
pub mod run;
