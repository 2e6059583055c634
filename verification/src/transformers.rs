//! The formats: the xyyz text notation, the annotation block of a script,
//! SQL statements and the rows of a card database; and the warnings of
//! reading the xyyz notation.

pub mod cdb;
pub mod script;
pub mod sql;
pub mod warnings;
pub mod xyyz;

pub use cdb::CDB;
pub use script::Script;
pub use sql::SQL;
pub use xyyz::Xyyz;
