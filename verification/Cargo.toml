[package]
name = "avifpixart"
version = "0.1.0"
edition = "2021"
publish = false

[dependencies]
bytemuck = "=1.25.2"
gainforge = "=0.3.7"
moxcms = "=0.8.1"
pic-scale = { version = "=0.6.15", default-features = false, features = ["rdm", "sse", "avx"] }
yuv = "=0.8.19"
yuvutils-rs = "=0.8.3"
