[package]
name = "bench_from_rpc"
version = "0.1.0"
edition = "2021"
publish = false

[dependencies]
alloy-consensus = { version = "~1.8.3", default-features = false, features = ["std"] }
alloy-eips = { version = "~1.8.3", default-features = false, features = ["std"] }
alloy-network = { version = "~1.8.3", default-features = false }
alloy-primitives = { version = "1", default-features = false, features = ["std"] }
alloy-rlp = { version = "0.3", default-features = false, features = ["std"] }
bincode = "1.3"
clap = { version = "4.5", default-features = false, features = ["std", "help", "usage", "error-context", "derive"] }
eyre = "0.6"
hex = "0.4"
revm-primitives = { version = "21", default-features = false, features = ["std"] }
revm-state = { version = "8", default-features = false, features = ["std"] }
tokio = { version = "1", default-features = false, features = ["macros", "rt-multi-thread"] }
tracing = { version = "0.1", default-features = false, features = ["std"] }
tracing-subscriber = { version = "0.3", default-features = false, features = ["env-filter", "fmt"] }
url = "2.5"
