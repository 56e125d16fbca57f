[package]
name = "stm32wba-tftdisplay"
version = "0.1.0"
edition = "2021"
publish = false

[dependencies]
cortex-m = "=0.7.10"
cortex-m-rt = "=0.7.7"
defmt = "=1.2.0"
defmt-rtt = "=1.3.1"
embassy-executor = { version = "=0.10.0", features = ["platform-spin", "executor-thread"] }
embassy-futures = "=0.1.2"
embassy-stm32 = { version = "=0.6.0", features = ["stm32wba65ri", "time-driver-any"] }
embassy-sync = "=0.8.0"
embassy-time = "=0.5.1"
embassy-usb = "=0.6.0"
embedded-3dgfx = { version = "=0.5.5", default-features = false, features = ["row_width_320", "depth-u16", "physics", "lighting", "raycast", "hud"] }
embedded-graphics = "=0.8.2"
embedded-gui-live = "=0.2.6"
embedded-hal = "=1.0.0"
embedded-hal-bus = "=0.3.0"
icm20948-rs = "=0.2.3"
libm = "=0.2.16"
mipidsi = "=0.9.0"
nalgebra = { version = "=0.35.0", default-features = false, features = ["libm"] }
panic-probe = "=1.0.0"
static_cell = "=2.1.1"
