[package]
name = "task_profiler"
version = "0.1.0"
edition = "2021"
publish = false

[dependencies]
crossbeam-channel = "=0.5.17"
flate2 = "=1.1.10"
framehop = "=0.7.2"
fxprof-processed-profile = "=0.6.0"
mach = "=0.3.2"
memmap2 = "=0.9.12"
object = "=0.32.2"
samply-symbols = "=0.21.0"
uuid = "1"

[dev-dependencies]
serde_json = "1"
