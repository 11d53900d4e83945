[package]
name = "noshare-cover"
version = "2.0.0"
edition = "2021"
publish = false

[dependencies]
image = { version = "0.25", default-features = false, features = ["png", "jpeg"] }
gif = "*"
libc = "0.2"
libloading = "*"
matroska-demuxer = "*"
re_mp4 = "*"
openh264 = { version = "*", default-features = false, features = ["libloading"] }
openh264-sys2 = { version = "*", default-features = false, features = ["libloading"] }
rav1d = { version = "1", default-features = false, features = ["bitdepth_8", "bitdepth_16"] }
cros-codecs = { version = "0.0.6", default-features = false, features = ["vaapi"] }
thiserror = "2"
