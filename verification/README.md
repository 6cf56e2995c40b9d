ratbagd
=======

The logic of `ratbagd`, a daemon that configures gaming mice, and of
`ratbagctl`, its command line tool, verified with Verus.

Layout
------

- `src/engine` holds the state of a device (`device`), its database entry
  (`device_database`), synthetic devices (`test_device`), the decisions of the
  task that owns a device (`actor`), and laws on changes of the state (`laws`).
- `src/hal` holds the protocols. Each driver decides, on plain values, what to
  send next and what to make of a reply: `asus`, `hidpp10`, `hidpp20`,
  `logitech_g600`, `openinput`, `sinowealth` and `steelseries`, and the smaller
  `etekcity`, `gskill`, `marsgaming` and `sinowealth_nubwo`. `hidpp` holds what
  the HID++ drivers share, and `transport` the routing of reports.
- `src/ratbagctl` reads arguments and properties of the bus, and writes lines.
- `src/bytes.rs` and `src/text.rs` hold sequences of bytes and of characters.
- `app/` performs the exchanges: hidraw nodes, the session bus and the command
  line.
- `tests/` runs the library.

What is proved
--------------

Every driver that talks to a device in turns is a state with a next request and
a step for each reply. The contract of a step gives the state after every reply,
failures among them. Where a protocol writes what it reads, a proof function
states that what was written is read back, and under which conditions. The
proof functions that are public are the laws of the library; each says in its
comment what it states.

What is trusted are four functions of the standard library in `src/text.rs`:
`str::to_lowercase`, `str::to_uppercase`, `String::from_utf8_lossy` and
`String::push`.
