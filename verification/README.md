# varint_core

Variable-length integers and bit-level encoding for the QUIC and MOQT wire
formats, verified with Verus.

- `bits`: the mathematical model: bit sequences, their numbers, and the bits
  of byte buffers.
- `partial`, `reader`, `writer`: reading and writing bits and bytes, with a
  reference reader and writer over `bytes` buffers (`buffers` holds the
  trusted wrappers of that crate).
- `bitstore`, `number`, `bit_number`, `bit_range`: numbers of a given bit
  width: the two-bit-tagged `x(i)`, fixed widths `x(N)` and ranges `x(A..B)`.
- `binary_data`, `tuple`, `key_value`, `track`: length-prefixed byte strings,
  lists of them, key-value parameters, track names and namespaces.
- `parse`, `convert`, `compare`: reading numbers from text, and converting and
  comparing them with primitive integers.
- `laws`: what holds across operations, above all that decoding what was
  encoded gives the value back.

Each encoder and decoder states, over the model, exactly which bits it writes
or reads, when it fails, and with which error. A reader or writer error is
passed on unchanged; the `Reader` and `Writer` traits name the error each read
or write gives, and the reference reader and writer say which one that is.
