# mesh-watchy

A monitor for Meshtastic networks. It takes the messages in that gateways publish over MQTT, stores
them in SQLite, forwards them to webhooks and shows them on a web interface.

- `src/` holds the rules: how topics and payloads are read, what is stored and how stored rows are
  shown, which webhooks a message goes to and how their answers are counted, what requests ask for
  and how they are answered. Every function states what it does in a contract, and Verus proves it.
  The exceptions are the items that call into other crates and the standard library (marked
  `external_body` or `assume_specification`): their contracts are trusted, and the comment above each
  says what it claims.
- `app/` holds what talks to the outside: the broker, the database, the web server, the HTTP client,
  configuration files and templates.
- `tests/` runs the rules.
