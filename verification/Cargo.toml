[package]
name = "trautonium"
version = "0.1.0"
edition = "2021"
publish = false

[dependencies]
allocator-api2 = "=0.4.0"
libm = "=0.2.16"
embassy-sync = "=0.8.0"
nb = "=1.1.0"
defmt = "=1.2.0"
paste = "=1.0.15"
esp-hal = "*"
esp-rtos = "*"
esp-println = "*"
esp-backtrace = "*"
esp-alloc = "*"
esp-bootloader-esp-idf = "*"
