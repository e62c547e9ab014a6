# serenade

Building blocks for web applications — routing, an HTTP kernel with
middleware, sessions and flash messages, a security layer, forms, an admin
generator, mail and a filesystem cache — written in Verus: the public
functions carry `requires` / `ensures` contracts (those that only run code
supplied by the application, such as the kernel's `handle`, state what they
can), and the properties that span functions (round trips of the codecs,
reverse routing, session login and logout) are proof functions.

Layout:

- `src/` — the verified library, one module per component (`http`,
  `session`, `security`, `form`, `admin`, `mailer`, `cache`, `sandbox`),
  with shared sequence and string helpers in `text` and `keyed`.
- `tests/` — executable tests of the library.
- `app/` — the I/O around it: writing mail to disk, SMTP delivery, the disk
  cache pool, async middleware steps and package downloads.

Running guest packages and modules under Wasmer is not part of this crate:
the `wasmer` runtime crates are not among its dependencies.  What surrounds
those runs stays: the package-run inputs, the cache root, the download size
check and the decoding of the guest's JSON output.
