pub mod fee_math;
pub mod growth_math;
pub mod liquidity_math;
pub mod price_math;
pub mod sqrt_price_math;
pub mod swap_math;
pub mod tick_math;

pub use fee_math::{calculate_fee_amount, calculate_protocol_fee};
pub use liquidity_math::{add_delta, get_liquidity_from_amounts};
pub use price_math::{sqrt_price_to_tick, tick_to_sqrt_price};
pub use sqrt_price_math::{get_amount_delta_a, get_amount_delta_b};
pub use tick_math::{
    check_tick_in_bounds, get_tick_array_start_index, is_tick_initialized, validate_tick_index,
};
