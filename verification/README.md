# awawausb

The native helper of a browser extension that gives web pages access to USB
devices (WebUSB). The extension and the helper exchange JSON messages over
native messaging; the helper finds devices, describes them, and carries out
requests on them.

The crate is written in Verus. `src/` is the library, where the helper's
decisions are stated as contracts and proved; `app/` makes the operating
system calls those decisions ask for:

- `ch9_core`, `interface_association_descriptor`, `descriptor`,
  `descriptor_set`: the standard USB descriptors, their wire codec, and the
  walk over a configuration's descriptors.
- `device`: the configurations reported for a device, the map from endpoints
  to interfaces, and the open/claim state that requests check and change.
- `sessions`: the devices known by session id, and what an unplug does.
- `request`, `completion`, `protocol`: what is done with each request, the
  replies, and the messages sent when transfers finish (Linux, macOS and
  Windows each report completions their own way).
- `numtext`, `b64`, `framing`: numbers as text, payload encoding, and the
  length prefix of native messaging.
- `udev`, `sysfs`, `engine`: Linux device discovery (udev events, sysfs
  files) and the event loop's decisions.
- `macos`, `winenum`, `winhotplug`: the bookkeeping of the macOS and Windows
  backends (pipes, GUIDs and their text, instance ids, the record of
  hot-plugged devices); `guidtext` proves that a GUID's text reads back.
- `blocklists`: security keys that the Windows backend does not record when
  it probes a new device (`winhotplug::WinHotplugDatabase::probe_step`).
- `host`, `seqs`, `assoc`: small helpers; `host` holds the few standard
  library functions whose behaviour is taken as documented.

`app/` is the program around the library: stdin/stdout and the JSON form of
the messages; on Linux epoll, the udev socket, sysfs and usbdevfs; on macOS
kqueue and the IOKit device and interface objects. The program runs on Linux
and macOS only: there is no Windows program, though the Windows backend's
bookkeeping and decisions are in the library.

`tests/` exercises the library on concrete values.
