[package]
name = "hashtable_ipc"
version = "0.1.0"
edition = "2021"
publish = false

[dependencies]
anyhow = "1"
arrayvec = "0.7"
clap = { version = "4", features = ["derive"] }
csv = "1"
ctrlc = "3"
libc = "0.2"
rand = "0.8"
rustix = { version = "*", features = ["shm", "mm", "fs"] }
serde = { version = "1", features = ["derive"] }
