pub mod bundle_manager;
pub mod liquidity_accounting;
pub mod liquidity_manager;
pub mod pool_manager;
pub mod position_manager;
pub mod reward_manager;
pub mod swap_accounting;
pub mod swap_manager;
pub mod tick_manager;
pub mod tick_registry;

pub use tick_registry::TickRegistry;
