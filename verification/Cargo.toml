[package]
name = "svoyak"
version = "0.1.0"
edition = "2021"
publish = false

[dependencies]
rand = "=0.8.8"
chrono = "=0.4.45"
bcrypt = "=0.15.1"
csrf = "=0.4.1"
data-encoding = "=2.11.1"
rusqlite = { version = "=0.31.0", features = ["bundled"] }
rocket = { version = "=0.5.2", features = ["json", "secrets"] }
rocket_dyn_templates = { version = "=0.2.0", features = ["tera"] }
teloxide = { version = "=0.12.2", default-features = false, features = ["macros", "rustls", "ctrlc_handler"] }
takecell = "<0.1.2"
tokio = { version = "=1.54.1", features = ["full"] }
serde = { version = "=1.0.229", features = ["derive"] }
serde_derive = "=1.0.229"
dotenv = "=0.15.0"
flexi_logger = "=0.28.5"
log = "=0.4.35"
dptree = "=0.3.0"
time = "=0.3.55"
