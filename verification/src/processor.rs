pub mod csv_generator;
pub mod gate;
pub mod history_processor;
