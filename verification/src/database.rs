//! The relational side: the schema that an application projects to, its
//! comparison with a database's schema, and the drivers.

pub mod drivers;
pub mod integration;
pub mod meta;
