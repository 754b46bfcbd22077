//! A verified encoder for the freedesktop "Desktop Entry" configuration
//! format: bracketed section headers, `Key=Value` lines and `Key[Sub]=Value`
//! sub-key lines, with a hard three-level nesting ceiling.
//!
//! The encoder walks a closed model of structured values ([`value::Value`])
//! and either produces the full document text or reports a structural error.
//! Around that core stand the verified decision helpers of an AppImage
//! packaging tool: desktop-file records, archive and package classification,
//! license recognition, and AppStream metadata records.

pub mod appstream;
pub mod archive;
pub mod desktop_entry;
pub mod licensing;
pub mod numfmt;
pub mod records;
pub mod textutil;
pub mod value;
