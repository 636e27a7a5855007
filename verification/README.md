# faf-ml-training

Training runs of a detection model as a service: the registry that owns the
runs, the `/ws/training` protocol that reports them, and both ends of that
socket.

- `src/` is the verified library. It decides; it does no I/O.
  - `manager` and `model`: the registry of runs, and the model that its
    contracts are stated over. One turn takes a start, a command or a message of
    a training thread, and leaves the actions to carry out in an outbox.
  - `replay`: which events late viewers still get.
  - `dataset`: the pre-flight check of a dataset snapshot.
  - `server`: the session behind one socket, and the status request.
  - `runs` and `connection`: the two clients.
  - `protocol`, `train`, `ids`, `clock`, `text`: what they all speak of.
  - `laws`: what holds across calls, runs and both ends of the socket.
- `app/` drives the library: JSON, tokio tasks and channels, training threads,
  axum handlers, and the WebSocket clients.
- `tests/` runs the library.

The library rests on five functions whose contracts are believed, not proved.
Each names the outside function it calls: `clock::now`, `ids::new_run_id`,
`ids::id_text`, `ids::parse_id` and `text::quote`.
