[package]
name = "app_core"
version = "0.1.0"
edition = "2021"
publish = false

[dependencies]
defmt = "=1.2.0"
defmt-rtt = "=1.3.1"
embassy-executor = { version = "=0.9.1", features = ["arch-spin", "executor-thread"] }
embassy-stm32 = { version = "=0.6.0", features = ["stm32l052c8", "time-driver-any", "memory-x"] }
embassy-time = "=0.5.1"
libm = "=0.2.16"
panic-halt = "=1.0.0"
