# drv

The rules of a small desktop made of separate processes, each with its own user: who may do
what, how an app is started and confined, what the person is asked, and what they answered.

`src/` is the library. Its functions have contracts that Verus proves. A daemon is a state and a
function from what happens to the next state and a list of acts; a privileged child is a list
of steps. What comes from outside (hashing a PIN, the clock, compiling a system call filter,
checking an object path, a few text conversions) is called through small wrappers whose
contracts are taken on trust.

- `policy`, `manifest`, `appd`, `identity`: records of what each user may do, and launching.
- `forker`, `os`, `init`: namespaces, mounts, credentials, system call filters, an app's root.
- `bridge`, `portal`, `dbus_shim`: the desktop's D-Bus names on an app's private bus.
- `cast`, `pw`: screen sharing, cameras and microphones.
- `files`, `chooser`: the file chooser and the documents mount.
- `auth`, `lock`: the PIN and the lock screen.
- `shell`: prompts, the app menu, notifications.
- `agent`, `keys`, `seat`, `cli`: the ssh agent's door, media keys, devices, the command line.
- `text`, `utf8`, `views`, `order`, `table`, `names`, `assoc`: what the rest is written with.

Properties that span several functions are public proof functions beside the functions they
are about; `cast/laws.rs`, `chooser/laws.rs` and `shell/laws.rs` hold those of the larger state
machines, `seat/laws.rs` and `bridge/sessions.rs` those of whole connections and sessions.

`app/` is ordinary Rust around the library: sockets, files, mounts, FUSE and D-Bus. It carries
out what the library decides. The programs that draw, that speak to PipeWire or that hold the
seat are written against the traits in `app/ports.rs`.

`tests/` runs the library on concrete values.
