[package]
name = "shed_line"
version = "0.1.0"
edition = "2021"
publish = false

[dependencies]
bytecount = "0.6"
nix = { version = "0.29", features = ["signal", "process", "term", "poll"] }
regex = "1"
smallvec = "1"
unicode-segmentation = "1"
unicode-width = "0.2"
