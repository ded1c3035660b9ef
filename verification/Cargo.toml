[package]
name = "guvnuh"
version = "0.1.0"
edition = "2021"
publish = false

[dependencies]
serde = { version = "1", default-features = false, features = ["derive"] }
postcard = "1"
heapless = "0.8"
libm = "0.2"
nb = "1"
cortex-m = "0.7"
stm32h7xx-hal = { version = "0.16", features = ["stm32h753"] }
rtic = { version = "2", features = ["thumbv7-backend"] }
rtic-monotonics = { version = "2", features = ["cortex-m-systick"] }
defmt = "0.3"
