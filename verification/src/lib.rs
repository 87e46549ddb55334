//! A verified core for a diagnostics console of asynchronous Rust programs:
//! the state kept about tasks and resources, the rules that flag suspicious
//! tasks, the configuration that the user gives, and the decisions of the
//! terminal views.
#![allow(unused_imports)]

pub mod text;
pub mod location;
pub mod store;
pub mod time;
pub mod util;
pub mod intern;
pub mod fields;
pub mod tasks;
pub mod warnings;
pub mod config;
pub mod styles;
pub mod input;
pub mod view;
pub mod order;
pub mod resources;
pub mod state;
pub mod causality;
pub mod table;
pub mod resource_table;
pub mod conn;
pub mod task_view;
pub mod histogram;
pub mod resource_view;
pub mod laws;
