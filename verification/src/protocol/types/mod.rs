mod auth;
mod auth_method;
mod auth_status;
mod client_command;
mod command_status;

pub use auth::{Auth, AuthView};
pub use auth_method::AuthMethod;
pub use auth_status::AuthStatus;
pub use client_command::ClientCommand;
pub use command_status::CommandStatus;
