[package]
name = "cullr"
version = "0.1.0"
edition = "2021"
publish = false

[dependencies]
anyhow = "1"
clap = { version = "=4.6.7", default-features = false, features = ["std", "derive", "help", "usage", "error-context"] }
eframe = { version = "=0.32.3", default-features = false, features = ["default_fonts", "glow", "x11"] }
fast_image_resize = { version = "=5.5.0", features = ["image"] }
ffmpeg-next = "=8.1.0"
flume = "=0.11.1"
icu = { version = "=2.4.0", default-features = false, features = ["compiled_data"] }
image = { version = "=0.25.10", default-features = false, features = ["bmp", "gif", "ico", "jpeg", "png", "qoi", "tiff", "webp"] }
indexmap = "=2.14.2"
jwalk = "=0.8.1"
kamadak-exif = "=0.6.1"
lru = "=0.16.4"
notify = "=8.2.1"
thiserror = "2"
time = { version = "=0.3.55", features = ["formatting", "parsing"] }
tracing = "0.1"
turbojpeg = { version = "=1.5.1", features = ["image"] }
which = "=8.0.6"
