pub mod common_conditions;
pub mod custom_conditions;
