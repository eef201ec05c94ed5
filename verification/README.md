# requestx

The logic of an httpx-compatible HTTP client, written in Verus and proved
against its contracts.

- `src/` is the verified library: headers, query parameters and cookies with
  their read-after-write laws; URLs (checking, parsing through the url crate,
  the views a caller reads, joining and replacing components); request
  preparation (default headers, authentication, Host and Cookie headers,
  bodies, form and multipart encoding); redirects; status codes; response
  decoding (charsets, JSON encodings, Link headers, decompression); errors and
  the exception each maps to; timeout and proxy decisions; configuration.
  Calls into outside crates (url, base64, digests, compression, sonic-rs,
  hyper, randomness, time) go through small trusted wrappers whose contracts
  name what those crates compute.
- `tests/` runs the library on concrete values.
- `app/` is the Python extension module (PyO3): it converts between Python
  objects and the library's values, performs the network I/O with reqwest's
  blocking client, and holds what is floating point (timeouts in seconds).
