[package]
name = "sphero"
version = "0.1.0"
edition = "2021"
publish = false

[dependencies]
global_counter = "*"
linux-embedded-hal = "*"
pwm-pca9685 = "*"
