# certmonitor

Connects to a list of host:port targets over TLS and ranks them by days until their certificate
expires, like `top`, but for certificate expiry. The ranked table is shown in the terminal, printed
as a report with a Nagios-style exit code (`--once`), or served as a web page (`--serve`).

## Layout

- `src/` is the library. It is written in Verus, and what its functions return is stated in their
  contracts and proved.
  - `text`: decimal numbers, trimming, searching and padding.
  - `target`: target lists.
  - `certificate`, `check`: what is read from the certificates of a server, and how a check fails.
  - `scan`: severities, renewal hints, ranking, the exit code.
  - `report`, `web`: the plain report and the web page.
  - `app`, `layout`: the terminal interface.
  - `config`: flags, config file and defaults.
- `app/` is the program around it: arguments, files, sockets, threads, the terminal.
- `tests/` runs the library.

## What is trusted

Proofs rest on the contracts of a few outside functions: `X509Certificate::from_der` and
`ASN1Time::now` of x509-parser, `ServerName::try_from` of rustls, `Layout::split` of ratatui, and
`String::push`, `char::is_whitespace` and `str::to_lowercase` of the standard library. Each of them
is declared in one place, next to what is claimed of it.

The proof functions whose names start with `law_` state what holds of the library as a whole.
