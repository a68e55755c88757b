pub mod text;
pub mod order;
pub mod reconcile;
pub mod report;
pub mod property;
pub mod catalog;
pub mod privilege;
pub mod rows;
pub mod compare;
pub mod properties;
pub mod guarantees;
pub mod cli;
