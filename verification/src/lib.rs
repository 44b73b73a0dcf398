pub mod fp;
pub mod vec2;
pub mod angles;
pub mod turning;
pub mod intercept;
pub mod motion;
pub mod policy;

pub use policy::{Ship, Sensed, TickCommand, BoostCommand, Engagement};
