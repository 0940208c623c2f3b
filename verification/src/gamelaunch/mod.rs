pub mod epic_launch;
pub mod launch;
pub mod minimize;
