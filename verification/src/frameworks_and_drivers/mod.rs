pub mod application_request;
pub mod environment;
pub mod factory;
pub mod front_controller;
pub mod message;
pub mod request_laws;
