# smes

A scraper for the SMES venture-company registry (www.smes.go.kr): the company
list, and each company's balance-sheet page behind a captcha that the Nopecha
service solves.

- `src/` is the verified library (Verus). It holds the domain types and their
  validation, date reading and display, the balance-sheet table parser, the
  checks every HTTP response goes through, cookie handling, the captcha states,
  the reading of the Nopecha answers and the decisions of the page-fetching loop.
  Calls into `scraper`, `minify-html`, `chrono`, `cookie`, `image` and `base64`
  go through small trusted wrappers whose contracts are documented where they
  stand.
- `app/` is the HTTP side (reqwest, tokio, backon, serde): it sends the requests,
  hands what comes back to the library, and runs the channels of the pipeline.
- `tests/` exercises the library on concrete inputs.
