pub mod continous_act;
pub mod discrete_act;
pub mod necto_parser_2;
