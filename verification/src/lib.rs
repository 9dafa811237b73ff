//! Verified core of the Outlook desktop wrapper: the WebAuthn request
//! checks and response assembly, the mailto translation, and the
//! decisions behind the tray and windows.

pub mod text;
pub mod encoding;
pub mod webauthn;
pub mod mailto;
pub mod desktop;
