[package]
name = "neuroformats"
version = "0.3.0"
edition = "2021"
publish = false

[dependencies]
byteordered = "0.6"
flate2 = "1"
ndarray = "0.16"
ndarray-stats = "0.6"
colorgrad = "0.7"
base64 = "0.22"
serde_json = "1"
quick-error = "2"

[dev-dependencies]
approx = "0.5"
