# cydevice

Host-side device posture agent for non-MDM environments: it reads a host's
own compliance state (disk encryption, screen lock, host firewall,
antivirus, OS updates, remote-access services, hardware root of trust),
derives findings with stable rule ids, and reports them to a Cybrium tenant.

The logic is a Verus-verified library; the program around it is ordinary
Rust.

## Layout

- `src/` — the verified library.
  - `report` — the report model; every control carries an `assessed` flag.
  - `findings` — the built-in rules, specified one by one, and their laws:
    unassessed controls never fail, ids are distinct, titles name the host.
  - `fingerprint` — the stable device fingerprint: a SHA-256 over a sorted,
    sanitized listing of identity fields, hex-encoded.
  - `posture` — what the output of each platform tool means (`linux`,
    `macos`, `windows`), host identity from `ioreg`, and the final assembly
    of a report.
  - `api` — endpoint paths, request headers, and the registration reply.
  - `text` — the character-level model of strings (trimming, lines, words,
    integer parsing and printing) that the parsers are specified against.
- `app/` — the command-line agent: argument handling, running the platform
  tools, reading and writing the enrolment config, HTTP, and the JSON wire
  form of the report.
- `tests/` — tests of the library on concrete values.
