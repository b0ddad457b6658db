//! Core logic of a small anonymous question-box service: challenge
//! verification for public writes, an admin gate for privileged routes,
//! classification of persistence failures into a closed client-facing
//! error taxonomy, and the request pipeline that composes them around a
//! store of askees (recipients) and asks (submitted questions).

pub mod api;
pub mod config;
pub mod defense;
pub mod error;
pub mod gate;
pub mod hcaptcha;
pub mod ip;
pub mod models;
pub mod store;
pub mod timestamp;
