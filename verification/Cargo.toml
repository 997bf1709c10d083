[package]
name = "streaming_simulator"
version = "0.1.0"
edition = "2021"
publish = false

[dependencies]
aotuv_lancer_vorbis_sys = "=0.1.6"
audioadapter-buffers = "=2.0.0"
fast_image_resize = "=6.1.0"
fdk-aac = "=0.8.0"
lc3-codec = "=0.2.0"
libsbc-sys = "=0.1.2"
minimp3-sys = "=0.6.0"
mp3lame-encoder = "=0.2.5"
ogg_next_sys = "=0.1.5"
opus = "=0.3.1"
png = "=0.18.1"
rubato = "=1.0.1"
