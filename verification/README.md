# odyssey_hub

The decision logic of the Odyssey hub and desktop app, verified with Verus:
device records and their capabilities, the handler state machine of a
device's USB and Bluetooth connections, firmware manifests and update
selection, DFU slot choice from interface descriptors, SHA-256 checks,
configuration files keyed by hex addresses, tracking history, accessory
status, sensor register settings, and the text the views show.

- `src/` is the library. Every function in it is verified except five small
  trusted wrappers, whose contracts Verus takes on trust and whose bodies
  make one outside call each: `text::push_char` (`String::push`),
  `device::utf8_prefix` (`std::str::from_utf8`), `digest::sha256_digest`
  (`sha2::Sha256::digest`, its result named `spec_sha256`),
  `digest::hex_encode` (`hex::encode`) and `paths::join_component`
  (`std::path::Path::join`). The laws the library keeps (round trips,
  invariants, read-after-write) are stated in contracts and as public proof
  functions beside the functions they speak of.
- `tests/` runs the library on concrete values.
- `app/` is a small command-line front end: it reads files, the environment
  and the USB bus, hands plain values to the library and prints what it
  decides.
