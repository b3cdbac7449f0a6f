pub mod http_method;
pub mod http_status;
pub mod route;

pub mod router;
pub mod http_request;
pub mod http_response;
pub mod dispatcher;
