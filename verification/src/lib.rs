//! An English-Russian dictionary served over HTTP: requests are routed to
//! controllers that find, list, add, update and delete entries in a unit of
//! work, whose changes are committed after each request.
pub mod application_business_rules;
pub mod enterprise_business_rules;
pub mod frameworks_and_drivers;
pub mod front_controller;
pub mod interface_adapters;
pub mod text;
