pub mod message;
pub mod communication_handler;
