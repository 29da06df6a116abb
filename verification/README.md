# shadowghost

A peer-to-peer messenger: contacts, chats, links that carry a peer's identity, a small wire
protocol with length-prefixed frames, peer discovery on the local network, and the command
line around them.

## Layout

- `src/` is the library, written in Verus. Every function whose result can be stated carries
  a contract (a reading of the clock, such as `get_current_timestamp`, has nothing to state).
  The verifier proves each body against its contract, except the bodies marked
  `#[verifier::external_body]`: those few make the calls into `std`, `base64`, `chrono`,
  `rand` and `uuid`, and their contracts are trusted as the documentation and source of those
  calls state them.
  - `text`, `keyed`, `sorting`: characters, decimal numbers, maps kept as lists of pairs, and
    stable ordering by a key.
  - `protocol`, `framing`, `tls_masking`, `stun`: the messages peers exchange, their frames,
    the TLS-shaped envelope, and the STUN and UPnP replies that reveal the external address.
  - `crypto`, `security`: the key pair, sealing and signing, and the peers trusted or refused.
  - `network`, `discovery`, `contacts`, `contact_manager`, `chats`, `messages`: the peers, the
    contact book, chats and their messages.
  - `node`, `config`, `lifecycle`, `health`, `events`: settings, profiles, the system's states,
    its health checks and the events it announces.
  - `links`, `engine`, `api`, `commands`: connection links, the messenger's core, the
    operations offered to a user interface, and what each typed command asks for.
  - `clock`, `entropy`: readings of the machine's clock and random values; where the clock or
    the random source fails, a fixed value stands in (the epoch, zeros, the nil UUID), so that
    nothing panics.
- `tests/` runs the library on concrete values.
- `app/` is the program: the command line, the TCP sessions, and the files on disk. It asks the
  library every decision and performs the input and output itself.
