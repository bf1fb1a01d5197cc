[package]
name = "mlkem_ot"
version = "0.1.0"
edition = "2021"
publish = false

[dependencies]
ml-kem = { version = "=0.2.3", features = ["deterministic"] }
rand = "=0.10.3"
sha3 = "=0.10.9"
subtle = { version = "=2.6.1", features = ["const-generics"] }
futures = "0.3"
serde = { version = "1", features = ["derive"] }
serde_bytes = "0.11"
thiserror = "2"
tracing = "0.1"

[dev-dependencies]
module-lattice = "=0.2.4"
hybrid-array = "=0.4.15"
