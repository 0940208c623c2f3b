pub mod aspo4_array;
