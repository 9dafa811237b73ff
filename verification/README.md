# outlook_for_linux

The verified core of a desktop wrapper for Outlook on the web.

- `src/webauthn.rs`: which sign-in requests may be signed (allowlisted origin,
  rpId equal to the host or a dotted parent domain of it), the clientDataJSON
  that binds an assertion to its origin, the user-verification decisions, the
  mapping of CTAP errors to stable codes, and the base64url encoding of the
  security key's answer.
- `src/mailto.rs`: translation of `mailto:` links into the compose deeplink.
- `src/desktop.rs`: the unread count read from the page title, the tray
  tooltip and badge, the tray menu, launch handling and window labels.
- `src/encoding.rs`: base64url and percent-decoding, stated as spec functions.
- `src/text.rs`: character-level text operations with their specifications.
- `app/`: the Tauri program (windows, tray, USB HID calls to the key,
  notifications), which calls the library for every decision.
