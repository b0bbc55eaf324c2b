# dnsvcert

ACME DNS-01 client for machines that cannot use HTTP-01: internal servers and
wildcard certificates. Challenge records are written into a dedicated challenge zone
by signed updates (RFC 2136 and TSIG); the real zones only carry one static CNAME per
name.

```
_acme-challenge.app.example.com.  CNAME  app.example.com.acme.example.com.
```

## Layout

`src/` is the library. It decides what is asked of DNS servers, of the certificate
authority and of the reader, and what is made of the answers. It is written in Verus:
every function states what it returns, and the statements are proved.

| module | what it holds |
| --- | --- |
| `text`, `encoding` | texts by their characters; base64 |
| `failure`, `lines` | chains of messages; what a reader is told |
| `addr`, `config` | server addresses; the configuration and its file |
| `bindings` | what is taken from other crates, and relied on there |
| `query` | verification queries and their replies |
| `dns`, `confirm` | the challenge zone: opening, writing, reading, confirming, probing |
| `zone` | what updates do to the records that a server holds |
| `acme`, `files`, `order` | the account, expiry, files, and the course of an order |
| `certs`, `doctor`, `hook` | the commands `issue`, `renew`, `doctor` and `hook` |
| `prompt`, `setup`, `check` | the guided setup |

Whatever takes time or touches the world is a state that says what to do next and a
step that takes what came of it. `app/` performs those steps: it holds the command
line, files, sockets and the terminal. `tests/` runs the library.
