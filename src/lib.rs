//! Pricing and request-signing core for placing a quick post-only limit
//! order: tick-size resolution, fixed-point price rounding, canonical
//! parameter strings, HMAC-SHA256 signing and exchange reply classification.

pub mod decimal;
pub mod pricing;
pub mod text;
pub mod signing;
pub mod types;
pub mod order;
