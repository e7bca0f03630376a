[package]
name = "dockdash"
version = "0.2.0"
edition = "2021"
publish = false

[dependencies]
async-trait = "=0.1.92"
cacache = { version = "=13.1.0", default-features = false, features = ["tokio-runtime"] }
container-registry = { version = "=0.3.1", features = ["test-support"] }
dirs = "=7.0.0"
flate2 = "=1.1.10"
oci-client = { version = "=0.15.0", default-features = false, features = ["rustls-tls"] }
oci-spec = "=0.6.8"
oci-tar-builder = "=0.4.0"
ocipkg = "=0.3.9"
olpc-cjson = "=0.1.4"
serde = { version = "=1.0.229", features = ["derive"] }
serde_json = "=1.0.154"
sha2 = "=0.10.9"
tar = "=0.4.46"
tempfile = "=3.27.0"
thiserror = "=2.0.21"
tokio = { version = "=1.54.1", features = ["full"] }
tracing = "=0.1.44"
walkdir = "=2.5.0"
zstd = "=0.13.4"
