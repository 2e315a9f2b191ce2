//! Propagation Nation: the verified core of a plant-swapping web application.
#![allow(non_snake_case)]

pub mod order_key;
pub mod point;
pub mod nearest;
pub mod session;
pub mod errors;
pub mod auth;
pub mod upload;
pub mod lists;
