# Grpc <-> WebRTC bridge

A bridge between the gRPC server of a robot and WebRTC clients, and a client that moves the
robot's arms through it.

`src/` holds the decisions of both programs, but for those on floating point numbers, with
contracts that Verus proves:

- `webrtc_bridge`, `session_table`, `session`, `channels`, `negotiation`: the bridge on the
  signalling server, its sessions, their data channels and the exchange of descriptions.
- `grpc_client`, `commands`, `reliable`, `lossy`: which procedure of the robot's server each
  command calls, what a lost connection leads to, and how messages of the two command channels
  are handed on.
- `simulator`, `listener`, `motion`, `messages`, `recording`, `json`: the client, its search for
  the bridge, the commands that it makes up and those that it reads from records.
- `ros2_publisher`, `stats`: messages to the robot's joints, and reports on a connection.
- `bridge_args`, `simulator_args`, `text`: what the programs are started with, and text.

Floating point numbers pass through the library as their bit patterns.

`app/` does the rest: signalling, media pipelines, threads, calls of the robot's server, and
everything on floating point numbers: the lifetime of packets, points of the circle, heights, and
whether the time of a way is over. It is one program:

```bash
RUST_LOG=debug grpc-webrtc-rsbridge bridge
RUST_LOG=debug grpc-webrtc-rsbridge simulator --frequency 100 --bench-mode
```
