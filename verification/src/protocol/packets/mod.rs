mod auth_request;
mod auth_response;
mod client_greet;
mod command_request;
mod command_response;
mod public_key_exchange;
mod server_greet;

pub use auth_request::{AuthRequest, AuthRequestView};
pub use auth_response::AuthResponse;
pub use client_greet::ClientGreet;
pub use command_request::{CommandRequest, CommandRequestView};
pub use command_response::CommandResponse;
pub use public_key_exchange::PublicKeyExchange;
pub use server_greet::ServerGreet;
