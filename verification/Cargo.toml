[package]
name = "scenechange"
version = "0.1.0"
edition = "2021"
publish = false

[dependencies]
anyhow = "=1.0.104"
bpaf = { version = "=0.9.28", features = ["derive"] }
serde = { version = "=1.0.229", features = ["derive"] }
serde_json = "=1.0.151"
v_frame = "=0.3.9"
y4m = "=0.8.0"
