//! Network traffic analysis: decoding captured frames, attributing traffic
//! to processes, and the statistics, reports and view state built on them.

pub mod net;
pub mod text;
pub mod headers;
pub mod capture;
pub mod rank;
pub mod seqs;
pub mod stats;
pub mod proc_table;
pub mod attribution;
pub mod domain_parse;
pub mod report;
pub mod interfaces;
pub mod palette;
pub mod view;
pub mod cli;
pub mod pipeline;
