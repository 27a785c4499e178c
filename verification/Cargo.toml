[package]
name = "xfwl4_udev"
version = "0.1.0"
edition = "2021"
publish = false

[dependencies]
anyhow = "=1.0.104"
tracing = "=0.1.44"
smithay = { version = "=0.7.0", default-features = false, features = ["backend_drm", "backend_gbm", "backend_egl", "backend_session", "renderer_gl", "renderer_multi", "wayland_frontend", "desktop"] }
