[package]
name = "adaptive_ode"
version = "0.1.0"
edition = "2021"
publish = false

[dependencies]
differential-equations = { version = "=0.7.0", features = ["nalgebra"] }
nalgebra = "=0.35.0"
