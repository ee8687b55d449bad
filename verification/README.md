# hen_local

The verified core of the Hen Local live-translation desktop shell, written in
Verus. The functions in `src/` carry contracts that Verus proves, apart from
the small trusted wrappers around outside crates and std (their contracts are
believed, not proved) and the four `AppleSpeech` methods that hand a command
to the speech worker's channel, which state nothing about its delivery.

## Layout

- `src/license.rs` – offline device leases: signature, payload, device and
  date checks, the embedded signing key, and the monotonic license clock.
- `src/account.rs` – account configuration, the account panel's status, the
  sign-in callback and the step-by-step account refresh.
- `src/listener.rs` – the subtitle state fed by the translator node's events.
- `src/overlay.rs` – what the subtitle overlay shows and when it scrolls.
- `src/speech.rs` – Apple voice listings, approved voice selection and the
  speech worker's decisions.
- `src/dataflow.rs` – rendering the translation dataflow from its template.
- `src/usage.rs` – local usage counters that never count a second twice.
- `src/shell.rs` – the desktop shell's runtime state, transcripts, test
  subtitles, input devices and the runtime worker's decisions.
- `src/bridge.rs`, `src/data.rs`, `src/shared.rs` – bridges to the dataflow and
  the state they share with the interface.
- `src/preferences.rs`, `src/previews.rs`, `src/protocol.rs`, `src/text.rs` –
  file locations and accepted choices, voice previews, the speech request
  protocol, and string operations with their specifications.
- `app/` – the command-line front end: files, the Keychain, the account service,
  the `say` command and the floating-point parts.
- `tests/` – tests run against the compiled library.

Calls into outside crates (base64, ed25519-dalek, chrono, sha2, url, dirs) and
into std's clock and channel go through small trusted wrappers whose contracts
are stated next to them.
