//! Annotates the lines of text files that match a set of literal and
//! regular-expression patterns by prefixing them with a marker.

mod error;
mod laws;
mod outside;
mod patterns;
mod run;
mod text;

pub use error::AnnotateError;
pub use laws::{
    all_records, fed, lemma_growth, lemma_rewrite_records, lemma_rewrite_twice, marked, marked_all,
    single_line,
};
pub use patterns::{write_record, Annotator, DEFAULT_MARKER, SIZE_LIMIT};
pub use run::{backup_path, Action, Args, Event, Run, Stage, BACKUP_EXTENSION};
pub use text::{chomp, split_records};
