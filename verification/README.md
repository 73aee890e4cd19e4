# vmux

The logic of the vmux browser shell, verified with Verus.

- `src/` is the library. Each module states its behaviour as `requires` /
  `ensures` contracts over `Seq`, `Map` and plain values, and Verus proves
  them: the simulator's key, clipboard and touch handling, the MJPEG frame
  splitter and frame exchange of the screen stream, the `simctl` device
  choice, the MCP OAuth requests and callback, the agent configuration
  entries, bookmark seeding and the bookmark tree, spaces, key bindings,
  the cheatsheet, and the commands and labels of the pages.
- A few calls into other crates (`ring`, `url`, `uuid`, `qrcode`, `serde_json`) and into
  the standard library (`String::push`, `str::to_lowercase`,
  `char::to_uppercase`, `Path::ancestors`) sit behind
  small `external_body` functions whose doc comments say what their
  contracts claim.
- `tests/` runs the library on concrete values.
- `app/` is the `vmux` command line around it: running `simctl` and `axe`,
  serving the simulator stream over loopback TCP, driving the MCP OAuth
  connection (HTTP with `reqwest`, the loopback listener), and the serde
  copies of the event and OAuth types.
