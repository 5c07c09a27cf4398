# dvb-si

Parsing and serialization of DVB service-information descriptors
(ETSI EN 300 468 and ISO/IEC 13818-1), verified with Verus.

Every descriptor type offers `parse` (from the front of a byte slice) and
`serialized_len` / `serialize_into` (to the front of a buffer). The body types
of the extension descriptor parse their selector bytes, append them to a
`Vec` with `write_to`, and write them to the front of a buffer with
`serialize_into`. Their contracts are stated over
byte sequences:

- `bytes_ok(s)` says exactly which inputs parse; `bytes_error(e, s)` says
  which error every other input gets;
- `decodes(b)` says what the parsed value holds for the body `b`;
- `wire()` is the encoding that `serialize_into` writes, and the only
  serialization failures are stated alongside it. Where a body's optional
  fields disagree with their selectors, the length it reports (`sized_len()`)
  differs from the bytes it writes, or some bytes of the buffer are left as
  they were (`keep_mask()`), and the contract says so.

Each module also proves the round trips: encoding a well-formed value and
parsing the bytes gives the value back; every parsed value is well formed
(a satellite delivery system descriptor where its DVB-S roll-off bits are
zero, the only roll-off DVB-S encodes), so parsing, encoding and parsing again
gives the value back; and parsing bytes
whose reserved bits are set as serialization writes them and encoding the
result gives the same bytes.

Layout:

- `src/wire.rs` — big-endian fields and byte runs;
- `src/runs.rs` — loops of self-delimiting entries;
- `src/bcd.rs` — packed BCD, with its inverse laws;
- `src/text.rs` — raw text runs and three-letter codes;
- `src/descriptors/` — one module per descriptor tag, and
  `src/descriptors/extension/` for the extension descriptor (tag 0x7F);
- `app/lib.rs` — degree conversions of the satellite orbital position, which
  need floating point;
- `tests/` — tests per descriptor.
