[package]
name = "vhost_user_vsock"
version = "0.1.0"
edition = "2021"
publish = false

[dependencies]
clap = "=2.34.0"
epoll = "=4.4.0"
libc = "=0.2.191"
log = "=0.4.35"
vhost = { version = "=0.18.0", features = ["vhost-user-backend"] }
vhost-user-backend = "=0.24.0"
virtio-bindings = "=0.2.7"
virtio-devices = "=0.1.0"
virtio-queue = "=0.18.0"
vm-memory = { version = "=0.18.0", features = ["backend-mmap", "backend-atomic"] }
vmm-sys-util = "=0.15.0"
