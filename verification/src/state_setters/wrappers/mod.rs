pub mod state_wrapper;
