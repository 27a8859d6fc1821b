//! Alias resolution for biological sequences over a single-table key-value store.
//!
//! Aliases such as `refseq:NC_000001.11` and the facts about the sequences that
//! they name are records of one table, told apart by the partition key. This
//! library holds everything that can be decided without talking to a store or
//! reading a file: how records are addressed ([`keys`]) and written as items
//! ([`attributes`], [`records`]), what is asked of the store ([`store`]), how a
//! lookup proceeds from each answer ([`lookup`]), and how an import proceeds from
//! each row and each write ([`import`], with the laws of whole runs in [`run`]).
//! Callers perform the reads and writes and report what came back.

pub mod api;
pub mod attributes;
pub mod cli;
pub mod decimal;
pub mod import;
pub mod keys;
pub mod lookup;
pub mod records;
pub mod run;
pub mod store;
pub mod text;
