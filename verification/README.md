# imsg

Wire formats, configuration rules and session-broker decisions for a Bluetooth MAP/PBAP
messaging client, verified with Verus.

- `src/bmessage`: the bMessage encoder and parser; encoding then parsing gives the message back
  whenever its one-line fields hold no line break and its text holds no `\r`, neither starts nor
  ends with `\n`, and has a LENGTH that fits in a `usize`.
- `src/phone.rs`, `src/vcard.rs`, `src/xml.rs`: phone-number normalisation (`phonenumber`),
  PBAP contacts (`calcard`) and MAP folder listings (`quick-xml`).
- `src/config`: configuration model and rules, the patches the `set_*` writers make, and
  applying a patch to the TOML text (`toml_edit`).
- `src/broker`: the session broker's decisions (subscribers and MNS, operation outcomes,
  connect retry, routing, readiness, the `Watch` connection's phases). The runtime that would
  perform them (sockets, the Bluetooth sessions, timers) is not part of this crate.
- `app/`: layered loading with figment, file writes, and XDG paths.
