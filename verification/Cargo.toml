[package]
name = "btleplug"
version = "0.1.0"
edition = "2021"
publish = false

[dependencies]
jni = "=0.19.0"
jni-utils = "=0.1.1"
uuid = "=1.27.0"
once_cell = "=1.21.4"
futures = "=0.3.34"
