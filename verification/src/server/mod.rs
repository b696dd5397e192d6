mod mode;
mod session;

pub use mode::ServerMode;
pub use session::{
    admits, authorization_reply, command_step, connect_reply, handshake_reply, CommandStep, CommandStepView,
    ServerSession, ServerSessionView, ServerStage,
};
