# degu_core

The part of degu that decides: which caches may be touched, who may change a
directory, what a tree is, and where the authority to act on it comes from. It
is written in Verus; every function under `src/` is proved against its contract.

- `authority`, `admission`, `disposition`, `finding`, `config`, `ecosystem`:
  the rules on what is found and who may write to it.
- `backend`: certified local file systems, the evidence on a held directory and
  the changes of its mode.
- `backend::held`: a tree that is held: its walk, its limits, its manifest and
  the codec of the manifest, and its sealing and removal.
- `anchor_layout`, `activation_anchor_provisioning`: where the anchor of an
  account lies, and how it is made.
- `activation`: the records of an activation, how they are read and written, and
  how the authority of an account is chosen.
- `bytes`, `digest`, `order`, `paths`, `random`, `sorting`, `text`: what the
  others are built on.

The library asks the system nothing. What was seen is handed in as plain values,
and what is to be done next is handed back; `app/` holds the calls.

What is not proved is marked `external_body` in `src/`: SHA-256, the random
number source, the packing of a device number, and the text of bytes that are
not text.
