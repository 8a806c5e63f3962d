//! Secrets to be logged for debugging.

use vstd::prelude::*;

verus! {

/// One line of a key log.
#[derive(Clone, Copy)]
pub struct KeyLogEntry {
    /// What the secret is.
    pub label: &'static str,
    /// The connection that it belongs to.
    pub conn_id: [u8; 32],
    /// The secret.
    pub secret: [u8; 32],
}

/// What a line of a key log says.
#[verifier::ext_equal]
pub struct KeyLogView {
    pub label: Seq<char>,
    pub conn_id: Seq<u8>,
    pub secret: Seq<u8>,
}

impl View for KeyLogEntry {
    type V = KeyLogView;

    open spec fn view(&self) -> KeyLogView {
        KeyLogView { label: self.label@, conn_id: self.conn_id@, secret: self.secret@ }
    }
}

/// What the lines of a key log say.
pub open spec fn entries_view(entries: Seq<KeyLogEntry>) -> Seq<KeyLogView> {
    entries.map_values(|entry: KeyLogEntry| entry@)
}

} // verus!
