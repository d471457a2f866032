//! A Unicode-aware tokenizer for an interactive shell.
//!
//! A line of text is cut into extended grapheme clusters, each cluster is
//! classified by Unicode property classes, and maximal runs of like-classified
//! clusters become identifier and symbol tokens. White space separates tokens
//! and leaves no trace; a cluster that fits no class is skipped and reported.
//!
//! - [`token`]: tokens and their model.
//! - [`cluster`]: clusters and the classes they fall under.
//! - [`segment`]: what the tokens of a line are, and what holds of them.
//! - [`lines`]: what holds of whole lines, and of lines that are joined.
//! - [`scan`]: the scan that finds the tokens.
//! - [`classifier`]: cutting a line into clusters and classifying them.
//! - [`session`]: the tokens of the lines read so far, and how they are shown.
//! - [`cmdline`]: what the command line asks for.
//! - [`trusted`]: what is taken on trust from other crates.

pub mod classifier;
pub mod cluster;
pub mod cmdline;
pub mod lines;
pub mod scan;
pub mod segment;
pub mod session;
pub mod token;
pub mod trusted;

pub use classifier::{tokenize, Classifier, PatternError};
pub use cmdline::{CmdLine, Task};
pub use scan::Scan;
pub use session::Session;
pub use token::{Kind, Token};
