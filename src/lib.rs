//! Reachability probe for game servers: address validation, reply
//! reporting and the decisions of the command-line session.
pub mod address;
pub mod probe;
pub mod session;
pub mod messages;
