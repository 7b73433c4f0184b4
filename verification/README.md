# fgtw_fleet

Passless remote access between the devices of one fleet. A guest signs the host's challenge with its
device key and proves that it holds the fleet's current epoch; a host that keeps nothing but its own
device key decides. Where two devices cannot reach each other directly, their byte stream travels in
signed envelopes through the fleet server's pipe.

- `src/` is the library, verified with Verus: keys and signatures (`keys`, `eggs`), documents and the
  chain cache (`framing`, `writing`, `document`, `cache`), membership (`folding`, `chain`), the
  handshake (`handshake`, `pending`), joining (`enroll`), shared settings and the device list
  (`roster`, `reach`, `sealer`), the relay (`frame`, `envelope`, `outbox`, `buffer`, `stream`, `pipe`,
  `transport`), and the viewer (`screen`, `follow`, `keymap`, `viewer`).
- `tests/` runs the library on concrete values, with the outside crates linked.
- `app/` holds what touches files, sockets, threads and the window.

Bytes from outside are walked by `framing` before the decoder sees them, because the decoder adds and
multiplies the lengths that it reads without a check. Turned away are documents with a length, a
count or a shape that does not fit in a machine word, and world coordinates that count none of the
cells there are. A chain whose entry records two times more than 63 bits apart does not fold, and a
fan-out whose wraps do not fit in a machine word is not trusted (`folding`). What is about to be
written is looked at in the same way (`writing`): bytes that would be taken for a signature of a
length that does not fit are not written.

Laws that relate several functions are public proof functions whose names begin with `law_`. What is
believed of outside crates stands in the contracts of functions marked `external_body`, each with a
comment that names the outside function.
