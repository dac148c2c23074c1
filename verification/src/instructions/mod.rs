pub mod initialize_config;
pub mod initialize_fee_tier;
pub mod initialize_pool;
pub mod initialize_tick_array;
