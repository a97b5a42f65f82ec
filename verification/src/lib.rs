//! Verified request-handling logic for a small family of web services:
//! a booking text-format converter, two tour stores, a flight-booking
//! store, a payment registry and a load balancer.

pub mod text;
pub mod line_pattern;
pub mod booking_format;
pub mod tour_confirm;
pub mod clock;
pub mod cache_validation;
pub mod tour_cache;
pub mod flight_booking;
pub mod payments;
pub mod balancer;
