/// The editable text buffer: content, cursor, edit and motion
/// operations, rendering.
pub mod buffer;
/// Word identities for an ownership-tagged buffer extension.
pub mod word;
/// The wrap model: spec functions mapping buffer offsets to screen
/// positions and row boundaries, with their laws.
pub mod wrap;
