# vhost_user_vsock

A vhost-user virtio-vsock device backend (Firecracker hybrid vsock: vsock over
Unix domain sockets), with its logic verified by Verus.

- `src/` is the verified library:
  - `config.rs`, `text.rs`: the backend parameter string
    `guest_cid=<cid>,uds_path=<path>,socket=<path>` and its reading;
  - `backend.rs`: the device (features, queues, configuration space,
    per-thread state);
  - `event.rs`: the order of work when an event comes, as a state machine;
  - `thread.rs`: a worker thread and what a pass over a virtqueue hands back.
- `app/` is the daemon: command line, vhost-user connection, guest memory,
  virtqueues and Unix sockets, driven by the library's decisions.
- `tests/` exercises the library on concrete inputs.
