use vstd::prelude::*;
use crate::text::push_char;
use crate::text::str_eq;

verus! {

/// A random string generator backed by a cryptographically secure generator.
///
/// The random strings are drawn from the lowercase alphanumeric alphabet:
/// the generator permutes the alphabet and takes a prefix, so every
/// character of a generated string belongs to that alphabet.
#[derive(Debug)]
pub struct SessionTokenRng;

/// The lowercase alphanumeric alphabet the random strings are drawn from.
pub open spec fn rng_alphabet() -> Seq<char> {
    seq![
        'a', 'b', 'c', 'd', 'e', 'f', 'g', 'h', 'i', 'j', 'k', 'l', 'm', 'n', 'o', 'p', 'q',
        'r', 's', 't', 'u', 'v', 'w', 'x', 'y', 'z', '0', '1', '2', '3', '4', '5', '6', '7',
        '8', '9',
    ]
}

/// Every character of the alphabet is ASCII; in particular none of them is
/// a separator of the wire format or of the record format.
pub proof fn lemma_rng_alphabet_ascii()
    ensures
        forall|c: char| rng_alphabet().contains(c) ==> '\0' <= c <= '\u{7f}',
{
    assert forall|c: char| rng_alphabet().contains(c) implies '\0' <= c <= '\u{7f}' by {
        let j = choose|j: int| 0 <= j < rng_alphabet().len() && rng_alphabet()[j] == c;
        assert(rng_alphabet()[j] == c);
    }
}

fn make_alphabet() -> (v: Vec<char>)
    ensures
        v@ =~= rng_alphabet(),
{
    let mut v: Vec<char> = Vec::new();
    v.push('a');
    v.push('b');
    v.push('c');
    v.push('d');
    v.push('e');
    v.push('f');
    v.push('g');
    v.push('h');
    v.push('i');
    v.push('j');
    v.push('k');
    v.push('l');
    v.push('m');
    v.push('n');
    v.push('o');
    v.push('p');
    v.push('q');
    v.push('r');
    v.push('s');
    v.push('t');
    v.push('u');
    v.push('v');
    v.push('w');
    v.push('x');
    v.push('y');
    v.push('z');
    v.push('0');
    v.push('1');
    v.push('2');
    v.push('3');
    v.push('4');
    v.push('5');
    v.push('6');
    v.push('7');
    v.push('8');
    v.push('9');
    v
}

/// Relies on nanorand's `RNG::shuffle`, run with its `ChaCha` generator at 8
/// rounds: it reorders the slice in place by swapping pairs of elements, so
/// the new contents are a permutation of the old contents.
#[verifier::external_body]
fn shuffle_chars(items: &mut Vec<char>)
    ensures
        final(items)@.len() == old(items)@.len(),
        final(items)@.to_multiset() == old(items)@.to_multiset(),
{
    let mut rng = nanorand::ChaCha::new(8);
    nanorand::RNG::shuffle(&mut rng, items.as_mut_slice());
}

/// Takes the first `count` characters of a freshly shuffled alphabet.
fn random_string(count: usize) -> (r: String)
    requires
        count <= 36,
    ensures
        r@.len() == count,
        forall|i: int| 0 <= i < r@.len() ==> rng_alphabet().contains(#[trigger] r@[i]),
{
    let mut alphabet = make_alphabet();
    shuffle_chars(&mut alphabet);
    proof {
        broadcast use vstd::seq_lib::group_to_multiset_ensures;

        assert forall|j: int| 0 <= j < alphabet@.len() implies rng_alphabet().contains(
            #[trigger] alphabet@[j],
        ) by {
            assert(alphabet@.contains(alphabet@[j]));
            assert(alphabet@.to_multiset().contains(alphabet@[j]));
            assert(rng_alphabet().to_multiset().contains(alphabet@[j]));
        }
    }
    let mut random = String::new();
    let mut i: usize = 0;
    while i < count
        invariant
            i <= count <= 36,
            alphabet@.len() == 36,
            random@.len() == i,
            forall|j: int|
                0 <= j < alphabet@.len() ==> rng_alphabet().contains(#[trigger] alphabet@[j]),
            forall|j: int| 0 <= j < i ==> rng_alphabet().contains(#[trigger] random@[j]),
        decreases count - i,
    {
        push_char(&mut random, alphabet[i]);
        i = i + 1;
    }
    random
}

impl SessionTokenRng {
    /// Generate a random 32-character lowercase alphanumeric string, used as
    /// the random identifier of a token.
    pub fn alphanumeric() -> (r: String)
        ensures
            r@.len() == 32,
            forall|i: int| 0 <= i < r@.len() ==> rng_alphabet().contains(#[trigger] r@[i]),
    {
        random_string(32)
    }

    /// Generate a random 12-character lowercase alphanumeric string, used as
    /// the per-token encryption nonce.
    pub fn nonce() -> (r: String)
        ensures
            r@.len() == 12,
            forall|i: int| 0 <= i < r@.len() ==> rng_alphabet().contains(#[trigger] r@[i]),
    {
        random_string(12)
    }
}

/// The client/server roles.
#[derive(Debug)]
pub enum Role {
    /// A slave node connected to a master node.
    SlaveNode,
    /// A master node that handles slave nodes.
    MasterNode,
    /// An authoritative node that can handle master nodes and their slaves.
    SuperNode,
    /// A node that handles verifying security, heartbeats, elections and
    /// lifetime of the nodes.
    VerifierNode,
    /// A node that acts as a service registry.
    RegistryNode,
    /// A node that only handles storage of data.
    StorageNode,
    /// A node that acts as a firewall for blacklists, whitelists, DNS
    /// requests and network access.
    FirewallNode,
    /// A node that routes inbound and outbound requests.
    RouterNode,
    /// A client with highest level permissions.
    SuperUser,
    /// A client with administrative capabilities.
    Admin,
    /// A normal client.
    User,
    /// A client with a custom role.
    Custom(String),
}

/// Specification-level value of a `Role`.
pub enum RoleView {
    /// A slave node connected to a master node.
    SlaveNode,
    /// A master node that handles slave nodes.
    MasterNode,
    /// An authoritative node that can handle master nodes and their slaves.
    SuperNode,
    /// A node that handles verifying security, heartbeats, elections and
    /// lifetime of the nodes.
    VerifierNode,
    /// A node that acts as a service registry.
    RegistryNode,
    /// A node that only handles storage of data.
    StorageNode,
    /// A node that acts as a firewall for blacklists, whitelists, DNS
    /// requests and network access.
    FirewallNode,
    /// A node that routes inbound and outbound requests.
    RouterNode,
    /// A client with highest level permissions.
    SuperUser,
    /// A client with administrative capabilities.
    Admin,
    /// A normal client.
    User,
    /// A client with a custom role, as a character sequence.
    Custom(Seq<char>),
}

impl View for Role {
    type V = RoleView;

    open spec fn view(&self) -> RoleView {
        match self {
            Role::SlaveNode => RoleView::SlaveNode,
            Role::MasterNode => RoleView::MasterNode,
            Role::SuperNode => RoleView::SuperNode,
            Role::VerifierNode => RoleView::VerifierNode,
            Role::RegistryNode => RoleView::RegistryNode,
            Role::StorageNode => RoleView::StorageNode,
            Role::FirewallNode => RoleView::FirewallNode,
            Role::RouterNode => RoleView::RouterNode,
            Role::SuperUser => RoleView::SuperUser,
            Role::Admin => RoleView::Admin,
            Role::User => RoleView::User,
            Role::Custom(text) => RoleView::Custom(text@),
        }
    }
}

/// The textual form of a role, as carried inside the serialized record.
pub open spec fn role_text(r: RoleView) -> Seq<char> {
    match r {
        RoleView::SlaveNode => "SlaveNode"@,
        RoleView::MasterNode => "MasterNode"@,
        RoleView::SuperNode => "SuperNode"@,
        RoleView::VerifierNode => "VerifierNode"@,
        RoleView::RegistryNode => "RegistryNode"@,
        RoleView::StorageNode => "StorageNode"@,
        RoleView::FirewallNode => "FirewallNode"@,
        RoleView::RouterNode => "RouterNode"@,
        RoleView::SuperUser => "SuperUser"@,
        RoleView::Admin => "Admin"@,
        RoleView::User => "User"@,
        RoleView::Custom(text) => text,
    }
}

/// Decoding role text is total: any text that names no closed variant
/// becomes a custom role carrying that text, never an error.
pub open spec fn role_of_text(s: Seq<char>) -> RoleView {
    if s == "SlaveNode"@ {
        RoleView::SlaveNode
    } else if s == "MasterNode"@ {
        RoleView::MasterNode
    } else if s == "SuperNode"@ {
        RoleView::SuperNode
    } else if s == "VerifierNode"@ {
        RoleView::VerifierNode
    } else if s == "RegistryNode"@ {
        RoleView::RegistryNode
    } else if s == "StorageNode"@ {
        RoleView::StorageNode
    } else if s == "FirewallNode"@ {
        RoleView::FirewallNode
    } else if s == "RouterNode"@ {
        RoleView::RouterNode
    } else if s == "SuperUser"@ {
        RoleView::SuperUser
    } else if s == "Admin"@ {
        RoleView::Admin
    } else if s == "User"@ {
        RoleView::User
    } else {
        RoleView::Custom(s)
    }
}

impl Default for Role {
    /// The default role is a normal client.
    fn default() -> (r: Self)
        ensures
            r@ == RoleView::User,
    {
        Self::User
    }
}

impl PartialEq for Role {
    fn eq(&self, other: &Role) -> (r: bool) {
        match (self, other) {
            (Role::SlaveNode, Role::SlaveNode) => true,
            (Role::MasterNode, Role::MasterNode) => true,
            (Role::SuperNode, Role::SuperNode) => true,
            (Role::VerifierNode, Role::VerifierNode) => true,
            (Role::RegistryNode, Role::RegistryNode) => true,
            (Role::StorageNode, Role::StorageNode) => true,
            (Role::FirewallNode, Role::FirewallNode) => true,
            (Role::RouterNode, Role::RouterNode) => true,
            (Role::SuperUser, Role::SuperUser) => true,
            (Role::Admin, Role::Admin) => true,
            (Role::User, Role::User) => true,
            (Role::Custom(value), Role::Custom(value2)) => value.eq(value2),
            _ => false,
        }
    }
}

impl vstd::std_specs::cmp::PartialEqSpecImpl for Role {
    open spec fn obeys_eq_spec() -> bool {
        true
    }

    open spec fn eq_spec(&self, other: &Role) -> bool {
        self@ == other@
    }
}

impl Clone for Role {
    fn clone(&self) -> (r: Self)
        ensures
            r@ == self@,
    {
        match self {
            Self::SlaveNode => Self::SlaveNode,
            Self::MasterNode => Self::MasterNode,
            Self::SuperNode => Self::SuperNode,
            Self::VerifierNode => Self::VerifierNode,
            Self::RegistryNode => Self::RegistryNode,
            Self::StorageNode => Self::StorageNode,
            Self::FirewallNode => Self::FirewallNode,
            Self::RouterNode => Self::RouterNode,
            Self::SuperUser => Self::SuperUser,
            Self::Admin => Self::Admin,
            Self::User => Self::User,
            Self::Custom(inner) => Self::Custom(inner.clone()),
        }
    }
}

impl Role {
    /// Converts role text to its variant; unrecognized text becomes a
    /// custom role carrying that text.
    pub fn from_str(role: &str) -> (r: Self)
        ensures
            r@ == role_of_text(role@),
    {
        if str_eq(role, "SlaveNode") {
            Role::SlaveNode
        } else if str_eq(role, "MasterNode") {
            Role::MasterNode
        } else if str_eq(role, "SuperNode") {
            Role::SuperNode
        } else if str_eq(role, "VerifierNode") {
            Role::VerifierNode
        } else if str_eq(role, "RegistryNode") {
            Role::RegistryNode
        } else if str_eq(role, "StorageNode") {
            Role::StorageNode
        } else if str_eq(role, "FirewallNode") {
            Role::FirewallNode
        } else if str_eq(role, "RouterNode") {
            Role::RouterNode
        } else if str_eq(role, "SuperUser") {
            Role::SuperUser
        } else if str_eq(role, "Admin") {
            Role::Admin
        } else if str_eq(role, "User") {
            Role::User
        } else {
            Role::Custom(role.to_owned())
        }
    }

    /// Converts a role into its textual form.
    pub fn to_string(role: &Role) -> (r: String)
        ensures
            r@ == role_text(role@),
    {
        match role {
            Role::SlaveNode => "SlaveNode".to_owned(),
            Role::MasterNode => "MasterNode".to_owned(),
            Role::SuperNode => "SuperNode".to_owned(),
            Role::VerifierNode => "VerifierNode".to_owned(),
            Role::RegistryNode => "RegistryNode".to_owned(),
            Role::StorageNode => "StorageNode".to_owned(),
            Role::FirewallNode => "FirewallNode".to_owned(),
            Role::RouterNode => "RouterNode".to_owned(),
            Role::SuperUser => "SuperUser".to_owned(),
            Role::Admin => "Admin".to_owned(),
            Role::User => "User".to_owned(),
            Role::Custom(text) => text.clone(),
        }
    }
}

/// The security mode of the data field in the token.
#[derive(Debug, Clone, Copy, PartialEq, Eq, Structural)]
pub enum ConfidentialityMode {
    /// Data field is unencrypted.
    Low,
    /// Data field is encrypted.
    High,
}

/// The textual form of a confidentiality mode, as carried in the wire token.
pub open spec fn confidentiality_text(m: ConfidentialityMode) -> Seq<char> {
    match m {
        ConfidentialityMode::High => "ConfidentialityMode::High"@,
        ConfidentialityMode::Low => "ConfidentialityMode::Low"@,
    }
}

/// Decoding confidentiality text is total: any text other than the exact
/// low-mode text decodes to the high mode, as a fail-safe default.
pub open spec fn confidentiality_of_text(s: Seq<char>) -> ConfidentialityMode {
    if s == "ConfidentialityMode::Low"@ {
        ConfidentialityMode::Low
    } else {
        ConfidentialityMode::High
    }
}

impl Default for ConfidentialityMode {
    /// The default mode keeps the data field encrypted.
    fn default() -> (r: Self)
        ensures
            r == ConfidentialityMode::High,
    {
        ConfidentialityMode::High
    }
}

impl ConfidentialityMode {
    /// Convert a `ConfidentialityMode` into a static string.
    pub fn to_string(value: &ConfidentialityMode) -> (r: &'static str)
        ensures
            r@ == confidentiality_text(*value),
    {
        match value {
            ConfidentialityMode::High => "ConfidentialityMode::High",
            ConfidentialityMode::Low => "ConfidentialityMode::Low",
        }
    }

    /// Convert confidentiality text into its variant.
    pub fn from_string(value: &str) -> (r: Self)
        ensures
            r == confidentiality_of_text(value@),
    {
        if str_eq(value, "ConfidentialityMode::Low") {
            ConfidentialityMode::Low
        } else {
            ConfidentialityMode::High
        }
    }
}

/// Confidentiality text is ASCII and decodes back to the mode it was
/// written from.
pub proof fn lemma_confidentiality_text_wf(m: ConfidentialityMode)
    ensures
        vstd::utf8::is_ascii_chars(confidentiality_text(m)),
        confidentiality_of_text(confidentiality_text(m)) == m,
{
    reveal_strlit("ConfidentialityMode::High");
    reveal_strlit("ConfidentialityMode::Low");
    assert("ConfidentialityMode::High"@.len() == 25);
    assert("ConfidentialityMode::Low"@.len() == 24);
    match m {
        ConfidentialityMode::High => {
            assert(vstd::utf8::is_ascii_chars(confidentiality_text(m)));
        },
        ConfidentialityMode::Low => {
            assert(vstd::utf8::is_ascii_chars(confidentiality_text(m)));
        },
    }
}

/// The outcome of verifying the validity of a token.
///
/// An outcome is a *successful* result that the caller must branch on: a
/// structurally valid but unauthentic or expired token is not an error.
#[derive(Debug, Clone, Copy, PartialEq, Eq, Structural)]
pub enum TokenOutcome {
    /// The token has been proved to be authentic.
    TokenAuthentic,
    /// The token has been authorized for provided capabilities.
    TokenAuthorized,
    /// The token is not authentic and has been rejected.
    TokenRejected,
    /// The token has been revoked by the server.
    TokenRevoked,
    /// The token is invalid in its structure or length.
    BadToken,
    /// The session held by the provided token has expired.
    SessionExpired,
}

} // verus!
