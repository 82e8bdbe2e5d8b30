//! The two kinds of database: a simulated one, held as a list of tables,
//! and PostgreSQL.

pub mod mock;
pub mod postgres;
