# dns_online

A client for the DNS API of online.net, written to add and remove the TXT
entries of Let's Encrypt DNS challenges (with acme.sh) and verified with Verus.

- `src/` is the verified library: the record, zone and domain types; the
  selection rules (which domain a name belongs to, which records match, which
  zone is in use); the texts sent on the wire (URLs, URL-escaped forms, BIND
  zone files, decimal TTLs) and the reading of TTLs; the requests each API
  operation sends; the status check of answers; and the steps of an edit of
  the zone in use made through a temporary zone.
- `app/` is the command line tool: argument parsing (clap), the HTTP
  transfers (curl) and the JSON decoding (serde), driving the library.
- `tests/` runs the library on concrete values.
