# cita_gossip

Membership and message logic of a gossip node that talks to its peers over
TLS, with its contracts proved by Verus.

- `src/` is the verified library: the member list and how a member is marked
  dead (`storage`), address resolution and random target choice (`filter`),
  the four message kinds and the transfers they ask for (`msg`), joining
  through seed members (`discovery`), the TLS client session cache and its
  file layout (`cache`), the TLS client's connection decisions and name
  lookups (`client`), the client configuration plan (`config`), the
  transport's port and server-mode choices (`comm`), and the periodic rounds
  (`schedule`).
- `app/` is the unverified shell: reading and writing the member and seed
  files as JSON, the client's command line (docopt), the TLS client and server over mio
  sockets with rustls, the cache file, mDNS announcement, and the timing of
  the periodic rounds.
- `tests/` exercises the library on concrete values.
