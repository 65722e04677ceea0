//! Random access to subsequences of a line-wrapped FASTA file through its
//! positional (`.fai`) index.

mod fasta_index;
mod index_entry;
mod indexed_fasta;
pub mod laws;
mod query_position;

pub use fasta_index::{EntryTable, FastaIndex, IndexError};
pub use index_entry::{EntryView, IndexEntry};
pub use indexed_fasta::{IndexedFasta, QueryError};
pub use query_position::QueryPosition;
