use vstd::prelude::*;

verus! {

/// Whether the token is cryptographically bound to a transport-level
/// session identifier.
///
/// `LiteSessionMode::Passive` leaves the token unbound from the transport
/// session. `LiteSessionMode::SessionID(id)` pins the current session
/// identifier (for example a TLS session key) to the token, which mitigates
/// token replay across sessions.
#[derive(Debug)]
pub enum LiteSessionMode {
    /// Session identifier of the transport protocol, kept with the token.
    SessionID(String),
    /// The transport protocol's session identifier is ignored.
    Passive,
}

/// Specification-level value of a `LiteSessionMode`.
pub enum ModeView {
    /// Session identifier of the transport protocol, as a character sequence.
    SessionID(Seq<char>),
    /// The transport protocol's session identifier is ignored.
    Passive,
}

impl View for LiteSessionMode {
    type V = ModeView;

    open spec fn view(&self) -> ModeView {
        match self {
            LiteSessionMode::SessionID(id) => ModeView::SessionID(id@),
            LiteSessionMode::Passive => ModeView::Passive,
        }
    }
}

impl Default for LiteSessionMode {
    /// The default mode leaves the token unbound.
    fn default() -> (r: Self)
        ensures
            r@ == ModeView::Passive,
    {
        Self::Passive
    }
}

impl PartialEq for LiteSessionMode {
    fn eq(&self, other: &Self) -> (r: bool) {
        match (self, other) {
            (LiteSessionMode::Passive, LiteSessionMode::Passive) => true,
            (LiteSessionMode::SessionID(id1), LiteSessionMode::SessionID(id2)) => id1.eq(id2),
            _ => false,
        }
    }
}

impl vstd::std_specs::cmp::PartialEqSpecImpl for LiteSessionMode {
    open spec fn obeys_eq_spec() -> bool {
        true
    }

    open spec fn eq_spec(&self, other: &Self) -> bool {
        self@ == other@
    }
}

impl Clone for LiteSessionMode {
    fn clone(&self) -> (r: Self)
        ensures
            r@ == self@,
    {
        match self {
            LiteSessionMode::Passive => LiteSessionMode::Passive,
            LiteSessionMode::SessionID(id) => LiteSessionMode::SessionID(id.clone()),
        }
    }
}

} // verus!
