pub mod company;
pub mod config;
pub mod dispatch;
pub mod numbers;
pub mod person;
pub mod request;
pub mod resolver;
pub mod response;
pub mod server;
pub mod server_error;
pub mod text;
