[package]
name = "stm32f103xx-rtc"
version = "0.1.0"
edition = "2021"
publish = false

[dependencies]
cortex-m = "*"
cortex-m-rt = "*"
cortex-m-semihosting = "*"
heapless = "*"
panic-semihosting = "*"
stm32f103xx = "*"
