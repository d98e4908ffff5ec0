//! Analysis trackers.

pub mod ofi;
pub mod vpin;
pub mod lifecycle;
pub mod trades;
pub mod quality;
pub mod depth;
pub mod spread;
pub mod mid_series;
pub mod cross_scale_ofi;
pub mod liquidity;
