mod session;
mod target_addr;

pub use session::{
    decimal_chars, host_port_chars, spec_auth_request, spec_command_outcome, spec_command_request, ClientSession,
    ClientSessionView,
};
pub use target_addr::{TargetAddr, TargetAddrView, DEFAULT_TARGET_PORT};
