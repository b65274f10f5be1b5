use vstd::prelude::*;
use vstd::multiset::Multiset;
use vstd::string::StringExecFns;
use crate::errors::LiteSessionError;
use crate::global::Role;
use crate::global::RoleView;
use crate::global::role_of_text;
use crate::global::role_text;
use crate::text::chars_le;
use crate::text::join_chars;
use crate::text::push_char;
use crate::text::split_chars;
use crate::text::split_str;
use crate::text::str_eq;
use crate::text::str_le;
use crate::text::lemma_chars_le_total;
use crate::text::lemma_join_chars_no_char;
use crate::text::lemma_join_chars_push;
use crate::text::lemma_split_join_chars;

verus! {

/// The record-level separator between username, role, tag and the list of
/// capabilities.
pub open spec fn ls_sep() -> char {
    '⥂'
}

/// The separator between two entries of the access control list.
pub open spec fn acl_sep() -> char {
    '⇅'
}

/// The data part of the token: the subject's identity together with its
/// capability list.
#[derive(Debug)]
pub struct LiteSessionData {
    username: String,
    role: Role,
    tag: Option<String>,
    acl: Vec<String>,
}

/// Specification-level value of a `LiteSessionData`.
#[verifier::ext_equal]
pub struct DataView {
    /// The username, as a character sequence.
    pub username: Seq<char>,
    /// The role.
    pub role: RoleView,
    /// The optional tag, as a character sequence.
    pub tag: Option<Seq<char>>,
    /// The access control list, one character sequence per capability.
    pub acl: Seq<Seq<char>>,
}

impl View for LiteSessionData {
    type V = DataView;

    closed spec fn view(&self) -> DataView {
        DataView {
            username: self.username@,
            role: self.role@,
            tag: match self.tag {
                Option::None => Option::None,
                Option::Some(ref t) => Option::Some(t@),
            },
            acl: self.acl.deep_view(),
        }
    }
}

/// The textual form of the optional tag: an absent tag is carried as the
/// literal text `None`.
pub open spec fn tag_text(tag: Option<Seq<char>>) -> Seq<char> {
    match tag {
        Option::None => "None"@,
        Option::Some(t) => t,
    }
}

/// Canonical serialization of a record: the username, the role text, the
/// tag text and the joined capability list, joined by the record separator.
pub open spec fn serialize_data(d: DataView) -> Seq<char> {
    join_chars(
        seq![d.username, role_text(d.role), tag_text(d.tag), join_chars(d.acl, acl_sep())],
        ls_sep(),
    )
}

/// Parsing serialized record text: the text must split into exactly four
/// segments on the record separator; the role and tag segments decode
/// totally, and the capability segment splits on the list separator in
/// encoded order.
pub open spec fn parse_data(s: Seq<char>) -> Option<DataView> {
    let parts = split_chars(s, ls_sep());
    if parts.len() != 4 {
        Option::None
    } else {
        Option::Some(
            DataView {
                username: parts[0],
                role: role_of_text(parts[1]),
                tag: if parts[2] == "None"@ {
                    Option::None
                } else {
                    Option::Some(parts[2])
                },
                acl: split_chars(parts[3], acl_sep()),
            },
        )
    }
}

/// A record round-trips through its canonical text when: it holds at least
/// one capability; no field text holds the record separator; no capability
/// holds the list separator; the tag does not spell the absent-tag marker;
/// and the role's text decodes back to the same role (custom role text must
/// not spell the name of a closed variant).
pub open spec fn data_round_trippable(d: DataView) -> bool {
    &&& d.acl.len() >= 1
    &&& forall|j: int| 0 <= j < d.username.len() ==> d.username[j] != ls_sep()
    &&& forall|j: int| 0 <= j < role_text(d.role).len() ==> role_text(d.role)[j] != ls_sep()
    &&& forall|j: int| 0 <= j < tag_text(d.tag).len() ==> tag_text(d.tag)[j] != ls_sep()
    &&& forall|i: int, j: int|
        0 <= i < d.acl.len() && 0 <= j < d.acl[i].len() ==> d.acl[i][j] != ls_sep() && d.acl[i][j]
            != acl_sep()
    &&& d.tag != Option::Some("None"@)
    &&& role_of_text(role_text(d.role)) == d.role
}

/// Every closed role variant meets the conditions that
/// `data_round_trippable` asks of the role: its text holds no separator and
/// decodes back to the same variant.
#[verifier::rlimit(60)]
pub proof fn lemma_closed_role_round_trips(r: RoleView)
    requires
        !(r is Custom),
    ensures
        role_of_text(role_text(r)) == r,
        forall|j: int| 0 <= j < role_text(r).len() ==> role_text(r)[j] != ls_sep(),
{
    reveal_strlit("SlaveNode");
    reveal_strlit("MasterNode");
    reveal_strlit("SuperNode");
    reveal_strlit("VerifierNode");
    reveal_strlit("RegistryNode");
    reveal_strlit("StorageNode");
    reveal_strlit("FirewallNode");
    reveal_strlit("RouterNode");
    reveal_strlit("SuperUser");
    reveal_strlit("Admin");
    reveal_strlit("User");
    assert("SuperNode"@[1] != "SlaveNode"@[1]);
    assert("RouterNode"@[0] != "MasterNode"@[0]);
    assert("RegistryNode"@[0] != "VerifierNode"@[0]);
    assert("FirewallNode"@[0] != "VerifierNode"@[0]);
    assert("FirewallNode"@[0] != "RegistryNode"@[0]);
    assert("SuperUser"@[1] != "SlaveNode"@[1]);
    assert("SuperUser"@[5] != "SuperNode"@[5]);
    match r {
        RoleView::SlaveNode => {
            assert(role_of_text(role_text(r)) == r);
        },
        RoleView::MasterNode => {
            assert(role_of_text(role_text(r)) == r);
        },
        RoleView::SuperNode => {
            assert(role_of_text(role_text(r)) == r);
        },
        RoleView::VerifierNode => {
            assert(role_of_text(role_text(r)) == r);
        },
        RoleView::RegistryNode => {
            assert(role_of_text(role_text(r)) == r);
        },
        RoleView::StorageNode => {
            assert(role_of_text(role_text(r)) == r);
        },
        RoleView::FirewallNode => {
            assert(role_of_text(role_text(r)) == r);
        },
        RoleView::RouterNode => {
            assert("RouterNode"@.len() == 10);
            assert("RouterNode"@[1] != "RegistryNode"@[1]);
            assert("RouterNode"@ != "SlaveNode"@);
            assert("RouterNode"@ != "MasterNode"@);
            assert("RouterNode"@ != "SuperNode"@);
            assert("RouterNode"@ != "VerifierNode"@);
            assert("RouterNode"@ != "RegistryNode"@);
            assert("RouterNode"@ != "StorageNode"@);
            assert("RouterNode"@ != "FirewallNode"@);
            assert(role_of_text(role_text(r)) == r);
        },
        RoleView::SuperUser => {
            assert(role_of_text(role_text(r)) == r);
        },
        RoleView::Admin => {
            assert("Admin"@.len() == 5);
            assert("Admin"@ != "SlaveNode"@);
            assert("Admin"@ != "MasterNode"@);
            assert("Admin"@ != "SuperNode"@);
            assert("Admin"@ != "VerifierNode"@);
            assert("Admin"@ != "RegistryNode"@);
            assert("Admin"@ != "StorageNode"@);
            assert("Admin"@ != "FirewallNode"@);
            assert("Admin"@ != "RouterNode"@);
            assert("Admin"@ != "SuperUser"@);
            assert(role_of_text(role_text(r)) == r);
        },
        RoleView::User => {
            assert("User"@.len() == 4);
            assert("User"@ != "SlaveNode"@);
            assert("User"@ != "MasterNode"@);
            assert("User"@ != "SuperNode"@);
            assert("User"@ != "VerifierNode"@);
            assert("User"@ != "RegistryNode"@);
            assert("User"@ != "StorageNode"@);
            assert("User"@ != "FirewallNode"@);
            assert("User"@ != "RouterNode"@);
            assert("User"@ != "SuperUser"@);
            assert("User"@ != "Admin"@);
            assert(role_of_text(role_text(r)) == r);
        },
        RoleView::Custom(_) => {
        },
    }
}

/// Record round-trip: parsing the canonical serialization of a wire-safe
/// record recovers that record exactly.
pub proof fn lemma_serialize_parse_round_trip(d: DataView)
    requires
        data_round_trippable(d),
    ensures
        parse_data(serialize_data(d)) == Option::Some(d),
{
    let p0 = d.username;
    let p1 = role_text(d.role);
    let p2 = tag_text(d.tag);
    let p3 = join_chars(d.acl, acl_sep());
    let parts = seq![p0, p1, p2, p3];
    lemma_join_chars_no_char(d.acl, acl_sep(), ls_sep());
    assert forall|i: int, j: int|
        0 <= i < parts.len() && 0 <= j < parts[i].len() implies parts[i][j] != ls_sep() by {
        if i == 0 {
            assert(parts[i][j] == p0[j]);
        } else if i == 1 {
            assert(parts[i][j] == p1[j]);
        } else if i == 2 {
            assert(parts[i][j] == p2[j]);
        } else {
            assert(parts[i][j] == p3[j]);
        }
    }
    lemma_split_join_chars(parts, ls_sep());
    lemma_split_join_chars(d.acl, acl_sep());
    if d.tag is Some {
        assert(p2 != "None"@);
    }
    assert(parse_data(serialize_data(d)).unwrap() =~= d);
}

/// Inserting into an ascending list: the new entry goes after every entry
/// at or before it, so equal entries keep their relative order.
pub open spec fn sorted_insert(acl: Seq<Seq<char>>, x: Seq<char>) -> Seq<Seq<char>>
    decreases acl.len(),
{
    if acl.len() == 0 {
        seq![x]
    } else if chars_le(acl[0], x) {
        seq![acl[0]] + sorted_insert(acl.drop_first(), x)
    } else {
        seq![x] + acl
    }
}

/// Sorting a list of entries ascending, described as inserting each entry
/// in turn into the sorted remainder.
pub open spec fn sort_entries(s: Seq<Seq<char>>) -> Seq<Seq<char>>
    decreases s.len(),
{
    if s.len() == 0 {
        Seq::<Seq<char>>::empty()
    } else {
        sorted_insert(sort_entries(s.drop_first()), s[0])
    }
}

/// The entries of a list with one prepended: the old entries plus the new
/// one.
proof fn lemma_cons_to_multiset(h: Seq<char>, t: Seq<Seq<char>>)
    ensures
        (seq![h] + t).to_multiset() == t.to_multiset().insert(h),
{
    broadcast use vstd::seq_lib::group_to_multiset_ensures;
    broadcast use vstd::multiset::group_multiset_axioms;

    vstd::seq_lib::lemma_multiset_commutative(seq![h], t);
    assert(seq![h] =~= Seq::<Seq<char>>::empty().push(h));
    assert(seq![h].to_multiset() =~= Multiset::<Seq<char>>::empty().insert(h));
    assert(Multiset::<Seq<char>>::empty().insert(h).add(t.to_multiset()) =~= t.to_multiset()
        .insert(h));
}

/// True when the entries stand in ascending order.
pub open spec fn entries_sorted(s: Seq<Seq<char>>) -> bool {
    forall|i: int, j: int| 0 <= i <= j < s.len() ==> chars_le(#[trigger] s[i], #[trigger] s[j])
}

/// Inserting into an ascending list keeps it ascending, and the new list
/// holds exactly the old entries plus the new one.
pub proof fn lemma_sorted_insert_keeps_order(acl: Seq<Seq<char>>, x: Seq<char>)
    requires
        entries_sorted(acl),
    ensures
        entries_sorted(sorted_insert(acl, x)),
        sorted_insert(acl, x).to_multiset() == acl.to_multiset().insert(x),
    decreases acl.len(),
{
    broadcast use vstd::seq_lib::group_to_multiset_ensures;

    let out = sorted_insert(acl, x);
    if acl.len() == 0 {
        lemma_cons_to_multiset(x, acl);
        assert(out =~= seq![x] + acl);
        lemma_chars_le_total(x, x);
    } else if chars_le(acl[0], x) {
        let rest = acl.drop_first();
        assert(entries_sorted(rest)) by {
            assert(forall|i: int, j: int|
                0 <= i <= j < rest.len() ==> rest[i] == acl[i + 1] && rest[j] == acl[j + 1]);
        }
        lemma_sorted_insert_keeps_order(rest, x);
        let inner = sorted_insert(rest, x);
        assert(out =~= seq![acl[0]] + inner);
        assert forall|i: int, j: int| 0 <= i <= j < out.len() implies chars_le(
            #[trigger] out[i],
            #[trigger] out[j],
        ) by {
            if i == j {
                lemma_chars_le_total(out[i], out[j]);
            } else if i == 0 {
                // The head is at or before every old entry and at or
                // before the new one; the inserted list holds nothing else.
                assert(inner.to_multiset().contains(inner[j - 1]));
                if inner[j - 1] == x {
                    assert(chars_le(out[i], out[j]));
                } else {
                    assert(rest.to_multiset().contains(inner[j - 1]));
                    let w = choose|w: int| 0 <= w < rest.len() && rest[w] == inner[j - 1];
                    lemma_chars_le_total(acl[0], acl[0]);
                    assert(chars_le(acl[0], acl[w + 1]));
                }
            } else {
                assert(chars_le(inner[i - 1], inner[j - 1]));
            }
        }
        lemma_cons_to_multiset(acl[0], inner);
        lemma_cons_to_multiset(acl[0], rest);
        assert(acl =~= seq![acl[0]] + rest);
        assert(rest.to_multiset().insert(x).insert(acl[0]) =~= rest.to_multiset().insert(
            acl[0],
        ).insert(x));
    } else {
        lemma_chars_le_total(acl[0], x);
        assert(chars_le(x, acl[0]));
        assert(out =~= seq![x] + acl);
        assert forall|i: int, j: int| 0 <= i <= j < out.len() implies chars_le(
            #[trigger] out[i],
            #[trigger] out[j],
        ) by {
            if i == j {
                lemma_chars_le_total(out[i], out[j]);
            } else if i == 0 {
                lemma_chars_le_total(acl[0], acl[0]);
                assert(chars_le(acl[0], acl[j - 1]));
                crate::text::lemma_chars_le_trans(x, acl[0], acl[j - 1]);
            } else {
                assert(out[i] == acl[i - 1]);
                assert(out[j] == acl[j - 1]);
            }
        }
        lemma_cons_to_multiset(x, acl);
    }
}

/// Sorting yields an ascending list that holds exactly the given entries:
/// this is the shape the access control list keeps after every insert.
pub proof fn lemma_sort_entries_sorted(s: Seq<Seq<char>>)
    ensures
        entries_sorted(sort_entries(s)),
        sort_entries(s).to_multiset() == s.to_multiset(),
    decreases s.len(),
{
    broadcast use vstd::seq_lib::group_to_multiset_ensures;

    if s.len() == 0 {
    } else {
        lemma_sort_entries_sorted(s.drop_first());
        lemma_sorted_insert_keeps_order(sort_entries(s.drop_first()), s[0]);
        lemma_cons_to_multiset(s[0], s.drop_first());
        assert(s =~= seq![s[0]] + s.drop_first());
        assert(sort_entries(s).to_multiset() =~= s.to_multiset());
    }
}

/// Where the insertion lands: right before the first entry that is
/// strictly greater than the new one.
proof fn lemma_sorted_insert_at(acl: Seq<Seq<char>>, x: Seq<char>, i: int)
    requires
        0 <= i <= acl.len(),
        forall|j: int| 0 <= j < i ==> chars_le(#[trigger] acl[j], x),
        i < acl.len() ==> !chars_le(acl[i], x),
    ensures
        sorted_insert(acl, x) =~= acl.take(i) + seq![x] + acl.skip(i),
    decreases i,
{
    if acl.len() == 0 {
        assert(acl.take(0) =~= Seq::<Seq<char>>::empty());
        assert(acl.skip(0) =~= Seq::<Seq<char>>::empty());
    } else if i == 0 {
        assert(acl.take(0) =~= Seq::<Seq<char>>::empty());
        assert(acl.skip(0) =~= acl);
    } else {
        lemma_sorted_insert_at(acl.drop_first(), x, i - 1);
        assert(acl.drop_first().take(i - 1) =~= acl.subrange(1, i));
        assert(acl.drop_first().skip(i - 1) =~= acl.skip(i));
        assert(seq![acl[0]] + (acl.subrange(1, i) + seq![x] + acl.skip(i)) =~= acl.take(i)
            + seq![x] + acl.skip(i));
    }
}

/// Inserts a capability into an ascending vector, after every entry at or
/// before it.
fn insert_sorted(acl: &mut Vec<String>, x: String)
    ensures
        final(acl).deep_view() =~= sorted_insert(old(acl).deep_view(), x@),
{
    let mut i: usize = 0;
    while i < acl.len() && str_le(acl[i].as_str(), x.as_str())
        invariant
            i <= acl@.len(),
            acl@ == old(acl)@,
            forall|j: int| 0 <= j < i ==> chars_le(#[trigger] acl.deep_view()[j], x@),
        decreases acl@.len() - i,
    {
        i = i + 1;
    }
    proof {
        lemma_sorted_insert_at(acl.deep_view(), x@, i as int);
    }
    let ghost before = acl.deep_view();
    acl.insert(i, x);
    proof {
        assert(acl.deep_view() =~= before.take(i as int) + seq![x@] + before.skip(i as int));
    }
}

/// Rebuilds the vector in ascending order.
fn sort_vec(v: &Vec<String>) -> (r: Vec<String>)
    ensures
        r.deep_view() =~= sort_entries(v.deep_view()),
{
    let mut out: Vec<String> = Vec::new();
    let mut k: usize = v.len();
    proof {
        assert(v.deep_view().skip(k as int) =~= Seq::<Seq<char>>::empty());
    }
    while k > 0
        invariant
            k <= v@.len(),
            out.deep_view() =~= sort_entries(v.deep_view().skip(k as int)),
        decreases k,
    {
        k = k - 1;
        let entry = v[k].clone();
        insert_sorted(&mut out, entry);
        proof {
            let tail = v.deep_view().skip(k as int);
            assert(tail.drop_first() =~= v.deep_view().skip(k as int + 1));
            assert(tail[0] == v.deep_view()[k as int]);
        }
    }
    proof {
        assert(v.deep_view().skip(0) =~= v.deep_view());
    }
    out
}

impl Default for LiteSessionData {
    /// A record starts out empty: empty username, the default role, no tag
    /// and no capabilities.
    fn default() -> (r: Self)
        ensures
            r@.username == Seq::<char>::empty(),
            r@.role == RoleView::User,
            r@.tag == Option::<Seq<char>>::None,
            r@.acl == Seq::<Seq<char>>::empty(),
    {
        let r = Self {
            username: String::new(),
            role: Role::default(),
            tag: Option::None,
            acl: Vec::new(),
        };
        proof {
            assert(r@.acl =~= Seq::<Seq<char>>::empty());
        }
        r
    }
}

impl PartialEq for LiteSessionData {
    fn eq(&self, other: &Self) -> (r: bool) {
        if !self.username.eq(&other.username) {
            return false;
        }
        if !self.role.eq(&other.role) {
            return false;
        }
        let tags_equal = match (&self.tag, &other.tag) {
            (Option::None, Option::None) => true,
            (Option::Some(t1), Option::Some(t2)) => t1.eq(t2),
            _ => false,
        };
        if !tags_equal {
            return false;
        }
        if self.acl.len() != other.acl.len() {
            proof {
                assert(self@.acl.len() != other@.acl.len());
            }
            return false;
        }
        let mut i: usize = 0;
        while i < self.acl.len()
            invariant
                i <= self@.acl.len(),
                self@.acl.len() == other@.acl.len(),
                self@.username == other@.username,
                self@.role == other@.role,
                self@.tag == other@.tag,
                forall|j: int| 0 <= j < i ==> self@.acl[j] == other@.acl[j],
            decreases self@.acl.len() - i,
        {
            if !self.acl[i].eq(&other.acl[i]) {
                proof {
                    assert(self@.acl[i as int] != other@.acl[i as int]);
                }
                return false;
            }
            i = i + 1;
        }
        proof {
            assert(self@.acl =~= other@.acl);
        }
        true
    }
}

impl vstd::std_specs::cmp::PartialEqSpecImpl for LiteSessionData {
    open spec fn obeys_eq_spec() -> bool {
        true
    }

    open spec fn eq_spec(&self, other: &Self) -> bool {
        self@ == other@
    }
}

impl Clone for LiteSessionData {
    fn clone(&self) -> (r: Self)
        ensures
            r@ == self@,
    {
        let mut acl: Vec<String> = Vec::new();
        let mut i: usize = 0;
        while i < self.acl.len()
            invariant
                i <= self@.acl.len(),
                acl.deep_view() =~= self@.acl.take(i as int),
            decreases self@.acl.len() - i,
        {
            let ghost before = acl.deep_view();
            acl.push(self.acl[i].clone());
            i = i + 1;
            proof {
                assert(acl.deep_view() =~= before.push(self@.acl[i - 1]));
                assert(acl.deep_view() =~= self@.acl.take(i as int));
            }
        }
        let r = Self {
            username: self.username.clone(),
            role: self.role.clone(),
            tag: match &self.tag {
                Option::None => Option::None,
                Option::Some(t) => Option::Some(t.clone()),
            },
            acl,
        };
        proof {
            assert(r@.acl =~= self@.acl);
        }
        r
    }
}

impl LiteSessionData {
    /// Set the username.
    pub fn username(&mut self, value: &str) -> (ret: &mut Self)
        ensures
            ret@ == (DataView { username: value@, ..old(self)@ }),
            *final(self) == *final(ret),
    {
        self.username = value.to_owned();
        self
    }

    /// Set the role, from the variants provided by `Role`.
    pub fn role(&mut self, role: Role) -> (ret: &mut Self)
        ensures
            ret@ == (DataView { role: role@, ..old(self)@ }),
            *final(self) == *final(ret),
    {
        self.role = role;
        self
    }

    /// Set a custom tag identifying this token or the current client,
    /// server or node.
    pub fn tag(&mut self, tag: &str) -> (ret: &mut Self)
        ensures
            ret@ == (DataView { tag: Option::Some(tag@), ..old(self)@ }),
            *final(self) == *final(ret),
    {
        self.tag = Option::Some(tag.to_owned());
        self
    }

    /// Add a capability to the access control list, keeping the list in
    /// ascending order; duplicates are allowed.
    pub fn add_acl(&mut self, capability: &str) -> (ret: &mut Self)
        ensures
            ret@ == (DataView {
                acl: sort_entries(old(self)@.acl.push(capability@)),
                ..old(self)@
            }),
            *final(self) == *final(ret),
    {
        self.acl.push(capability.to_owned());
        proof {
            assert(self.acl.deep_view() =~= old(self)@.acl.push(capability@));
        }
        let sorted = sort_vec(&self.acl);
        self.acl = sorted;
        self
    }

    /// Remove the first capability equal to the given one from the access
    /// control list; an absent capability is signalled by `None`, never by
    /// an error.
    pub fn remove_acl(&mut self, capability: &str) -> (r: Option<String>)
        ensures
            r is Some <==> old(self)@.acl.contains(capability@),
            r is Some ==> r.unwrap()@ == capability@,
            r is Some ==> final(self)@ == (DataView {
                acl: old(self)@.acl.remove(old(self)@.acl.index_of_first(capability@).unwrap()),
                ..old(self)@
            }),
            r is None ==> final(self)@ == old(self)@,
    {
        let mut i: usize = 0;
        while i < self.acl.len()
            invariant
                i <= self@.acl.len(),
                self@ == old(self)@,
                forall|k: int| 0 <= k < i ==> self@.acl[k] != capability@,
            decreases self@.acl.len() - i,
        {
            if str_eq(self.acl[i].as_str(), capability) {
                proof {
                    assert(old(self)@.acl[i as int] == capability@);
                    assert(old(self)@.acl.contains(capability@));
                    old(self)@.acl.index_of_first_ensures(capability@);
                    assert(old(self)@.acl.index_of_first(capability@) == Option::Some(i as int));
                }
                let removed = self.acl.remove(i);
                proof {
                    assert(self@.acl =~= old(self)@.acl.remove(i as int));
                    assert(self@ =~= (DataView {
                        acl: old(self)@.acl.remove(i as int),
                        ..old(self)@
                    }));
                }
                return Option::Some(removed);
            }
            i = i + 1;
        }
        proof {
            assert(forall|j: int|
                0 <= j < old(self)@.acl.len() ==> old(self)@.acl[j] != capability@);
        }
        Option::None
    }

    /// Get the username.
    pub fn get_username(&self) -> (r: &String)
        ensures
            r@ == self@.username,
    {
        &self.username
    }

    /// Get the role.
    pub fn get_role(&self) -> (r: &Role)
        ensures
            r@ == self@.role,
    {
        &self.role
    }

    /// Get the tag.
    pub fn get_tag(&self) -> (r: &Option<String>)
        ensures
            r is Some <==> self@.tag is Some,
            r is Some ==> r.unwrap()@ == self@.tag.unwrap(),
    {
        &self.tag
    }

    /// Get the access control list of capabilities.
    pub fn get_acl(&self) -> (r: &Vec<String>)
        ensures
            r.deep_view() == self@.acl,
    {
        &self.acl
    }

    /// Build the record into the canonical text that is attached to a
    /// token. The record must hold at least one capability.
    pub fn build(&self) -> (r: String)
        requires
            self@.acl.len() >= 1,
        ensures
            r@ == serialize_data(self@),
    {
        let mut acl_token = String::new();
        acl_token.append(self.username.as_str());
        push_char(&mut acl_token, self.ls_separator());
        let role_string = Role::to_string(&self.role);
        acl_token.append(role_string.as_str());
        push_char(&mut acl_token, self.ls_separator());
        match &self.tag {
            Option::None => acl_token.append("None"),
            Option::Some(tag) => acl_token.append(tag.as_str()),
        }
        push_char(&mut acl_token, self.ls_separator());

        let mut acl_list = String::new();
        acl_list.append(self.acl[0].as_str());
        let mut i: usize = 1;
        proof {
            assert(self@.acl.take(1) =~= seq![self@.acl[0]]);
        }
        while i < self.acl.len()
            invariant
                1 <= i <= self@.acl.len(),
                acl_list@ =~= join_chars(self@.acl.take(i as int), acl_sep()),
            decreases self@.acl.len() - i,
        {
            push_char(&mut acl_list, self.acl_separator());
            acl_list.append(self.acl[i].as_str());
            proof {
                lemma_join_chars_push(self@.acl.take(i as int), acl_sep(), self@.acl[i as int]);
                assert(self@.acl.take(i as int).push(self@.acl[i as int]) =~= self@.acl.take(
                    i as int + 1,
                ));
            }
            i = i + 1;
        }
        proof {
            assert(self@.acl.take(i as int) =~= self@.acl);
        }
        acl_token.append(acl_list.as_str());
        proof {
            let p0 = self@.username;
            let p1 = role_text(self@.role);
            let p2 = tag_text(self@.tag);
            let p3 = join_chars(self@.acl, acl_sep());
            lemma_join_chars_push(seq![p0], ls_sep(), p1);
            lemma_join_chars_push(seq![p0, p1], ls_sep(), p2);
            lemma_join_chars_push(seq![p0, p1, p2], ls_sep(), p3);
            assert(seq![p0].push(p1) =~= seq![p0, p1]);
            assert(seq![p0, p1].push(p2) =~= seq![p0, p1, p2]);
            assert(seq![p0, p1, p2].push(p3) =~= seq![p0, p1, p2, p3]);
            assert(acl_token@ =~= join_chars(seq![p0, p1, p2, p3], ls_sep()));
        }
        acl_token
    }

    /// Parse serialized record text into a record, replacing every field of
    /// this record; the only failure is text that does not split into
    /// exactly four segments.
    pub fn destructure(self, data: &str) -> (r: Result<Self, LiteSessionError>)
        ensures
            r is Ok <==> parse_data(data@) is Some,
            r is Ok ==> r.unwrap()@ == parse_data(data@).unwrap(),
            r is Err ==> r.unwrap_err() == LiteSessionError::DataFieldsLengthError,
    {
        let mut this = self;
        let first_split = split_str(data, this.ls_separator());
        if first_split.len() != 4 {
            return Result::Err(LiteSessionError::DataFieldsLengthError);
        }
        this.username = first_split[0].clone();
        this.role = Role::from_str(first_split[1].as_str());
        this.tag = if str_eq(first_split[2].as_str(), "None") {
            Option::None
        } else {
            Option::Some(first_split[2].clone())
        };
        let acl_list = split_str(first_split[3].as_str(), this.acl_separator());
        this.acl = acl_list;
        proof {
            assert(this@ == parse_data(data@).unwrap());
        }
        Result::Ok(this)
    }

    fn ls_separator(&self) -> (c: char)
        ensures
            c == ls_sep(),
    {
        '⥂'
    }

    fn acl_separator(&self) -> (c: char)
        ensures
            c == acl_sep(),
    {
        '⇅'
    }
}

} // verus!
