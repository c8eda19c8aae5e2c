[package]
name = "ofl"
version = "0.1.0"
edition = "2021"
publish = false

[dependencies]
avm1-parser = "*"
avm1-types = "*"
clap = "*"
exitcode = "*"
hex = "*"
serde = "*"
serde_json_v8 = "*"
sha2 = "*"
swf-parser = "*"
swf-types = "*"
tokio = { version = "*", features = ["rt", "macros", "fs", "rt-multi-thread"] }
