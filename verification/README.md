# mail

A parser for Internet messages (RFC 5322, accepting the obsolete forms of
RFC 2822 where they are common), with the MIME header fields of RFC 2045 and
the multipart boundaries of RFC 2046, verified with Verus.

Every parser takes the input bytes and a position, and returns the position
after what it matched together with the value read.  Its contract states the
grammar rule as a spec function over `Seq<u8>`, and the parser is proved to
compute exactly that.

Layout:

- `src/lib.rs`: the message model (`Message`, `Field`, the raw field bodies,
  `Address`, `MessageID`, `DateTime`) and the readers of structured fields.
- `src/rfc5322/`: the grammar, from single characters (`chars`) through
  folding white space and comments (`lexical`), words and phrases (`words`),
  unstructured text (`text`), addresses (`address`), dates (`datetime`),
  message identifiers (`ids`) to header fields and messages (`fields`);
  `ascii` proves that local parts, domains and identifiers are ASCII text.
- `src/mime.rs`, `src/rfc2046.rs`: MIME header fields and boundaries.
- `src/laws.rs`: properties of the library as a whole.
- `src/util.rs`: digits, case-insensitive literals, text conversion.
- `app/main.rs`: reads a message from standard input and logs the fields
  that do not parse (through `log`, set up by `env_logger`).
