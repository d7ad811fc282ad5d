[package]
name = "cosmic_viewer"
version = "0.1.0"
edition = "2021"
publish = false

[dependencies]
image = { version = "=0.25.10", default-features = false, features = ["jpeg", "png", "gif", "webp", "bmp", "tiff", "ico", "hdr", "pnm", "qoi", "ff"] }
lru = "=0.19.0"
dirs = "=7.0.0"
chrono = "=0.4.45"
kamadak-exif = "=0.6.1"
zune-image = "*"
fast_image_resize = "*"
turbojpeg = "*"
