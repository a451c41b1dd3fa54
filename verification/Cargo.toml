[package]
name = "container"
version = "0.1.0"
edition = "2021"
publish = false

[dependencies]
anyhow = "1"
argon2 = { version = "=0.5.3", default-features = false, features = ["alloc"] }
bier_derive = "=1.0.0"
bierpc = "=1.0.0"
clap = { version = "=4.6.7", default-features = false, features = ["std", "derive", "help", "usage", "error-context"] }
console = "=0.16.6"
crossterm = { version = "=0.28.1", features = ["event-stream"] }
dirs = "=7.0.0"
ed25519-dalek = "=2.2.0"
flate2 = "=1.1.10"
futures = { version = "=0.3.34", default-features = false, features = ["std"] }
getrandom = "=0.3.4"
gix = { version = "=0.90.0", default-features = false, features = ["sha1", "blocking-network-client", "worktree-mutation"] }
hkdf = "=0.12.4"
hmac = "=0.12.1"
portable-pty = "=0.9.0"
processkit = { version = "=3.3.4", features = ["stats"] }
rand = "=0.9.5"
ratatui = { version = "=0.29.0", default-features = false, features = ["crossterm"] }
rcgen = { version = "=0.13.2", default-features = false, features = ["crypto", "ring"] }
reqwest = { version = "=0.12.28", default-features = false }
rustls = "=0.23.46"
sha2 = "=0.10.9"
sysinfo = { version = "=0.39.6", default-features = false, features = ["system", "disk", "network"] }
tar = "=0.4.46"
tokio = { version = "=1.54.1", features = ["full"] }
windows-sys = { version = "=0.61.2", features = ["Win32_Foundation", "Win32_System_Console"] }
x509-parser = "=0.16.0"
zip = { version = "=9.2.2", default-features = false, features = ["deflate-flate2"] }
