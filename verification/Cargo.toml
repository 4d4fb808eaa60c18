[package]
name = "font_system"
version = "0.1.0"
edition = "2021"
publish = false

[dependencies]
brotli = "*"
byteorder = "1"
flate2 = "1"
fontconfig = "*"
freetype-rs = "*"
harfbuzz_rs = "*"
lru = "0.12"
thiserror = "1"
ttf-parser = "*"
unicode-linebreak = "0.1"
