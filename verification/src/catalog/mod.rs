//! The static catalog: schema shapes, field indices, topology-function and
//! action schemas, observation and check kinds, the cause table and the
//! Wi-Fi mapping table.
pub mod causes;
pub mod events;
pub mod fields;
pub mod metric;
pub mod schema;
pub mod tables;
pub mod wifi;
