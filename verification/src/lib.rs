//! A schema-definition compiler.
//!
//! Entities and their functions are declared in source files ([`lang::cst`]),
//! resolved into an application ([`lang::ast_builder`], [`lang::ast`]) and
//! projected onto tables. The tables are compared with those of a database,
//! and the differences compiled into the change that reconciles the two
//! ([`database::integration`]). Two kinds of database are known
//! ([`database::drivers`]): a simulated one, which its caller holds as a
//! list of tables, and PostgreSQL, whose connection stays with the caller.

pub mod database;
pub mod lang;
