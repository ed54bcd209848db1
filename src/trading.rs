pub mod position_manager;
