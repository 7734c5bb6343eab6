[package]
name = "ouch"
version = "0.1.5"
edition = "2021"
publish = false

[dependencies]
bzip2 = "=0.4.4"
flate2 = "=1.1.10"
strsim = "=0.10.0"
tar = "=0.4.46"
xz2 = "=0.1.7"
zip = { version = "0.6", default-features = false, features = ["bzip2", "deflate"] }

[dev-dependencies]
rand = { version = "=0.8.8", default-features = false, features = ["small_rng", "std"] }
