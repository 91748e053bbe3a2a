//! Frame codec and device-session logic for DigiMesh radio modems in API mode.
pub mod api;
pub mod buf;
pub mod device;
