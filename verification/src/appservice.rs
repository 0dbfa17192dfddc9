//! Appservice registrations as they are stored: the id as key, the
//! registration as YAML text as value.
//!
//! Reading the YAML is the work of `serde_yaml` on the registration type
//! of `ruma`; nothing here is proved about what those crates do.

use crate::text::{string_from_bytes, text_of};
use vstd::prelude::*;
use vstd::utf8::*;

verus! {

/// A pattern of ids that an appservice claims.
#[derive(Debug)]
pub struct Namespace {
    /// Whether the appservice alone may use the ids.
    pub exclusive: bool,
    /// The regular expression that the ids match.
    pub regex: String,
}

/// A `Namespace` as mathematics.
pub struct NamespaceView {
    pub exclusive: bool,
    pub regex: Seq<char>,
}

impl View for Namespace {
    type V = NamespaceView;

    open spec fn view(&self) -> NamespaceView {
        NamespaceView { exclusive: self.exclusive, regex: self.regex@ }
    }
}

/// The registration of an appservice, field by field as it is written in
/// YAML.
#[derive(Debug)]
pub struct Registration {
    pub id: String,
    pub url: Option<String>,
    pub as_token: String,
    pub hs_token: String,
    pub sender_localpart: String,
    /// Namespaces of users.
    pub users: Vec<Namespace>,
    /// Namespaces of room aliases.
    pub aliases: Vec<Namespace>,
    /// Namespaces of rooms.
    pub rooms: Vec<Namespace>,
    pub rate_limited: Option<bool>,
    pub protocols: Option<Vec<String>>,
    pub receive_ephemeral: bool,
}

/// A `Registration` as mathematics.
pub struct RegistrationView {
    pub id: Seq<char>,
    pub url: Option<Seq<char>>,
    pub as_token: Seq<char>,
    pub hs_token: Seq<char>,
    pub sender_localpart: Seq<char>,
    pub users: Seq<NamespaceView>,
    pub aliases: Seq<NamespaceView>,
    pub rooms: Seq<NamespaceView>,
    pub rate_limited: Option<bool>,
    pub protocols: Option<Seq<Seq<char>>>,
    pub receive_ephemeral: bool,
}

/// A list of namespaces as mathematics.
pub open spec fn namespaces_view(list: Seq<Namespace>) -> Seq<NamespaceView> {
    Seq::new(list.len(), |i: int| list[i]@)
}

/// A list of strings as mathematics.
pub open spec fn strings_view(list: Seq<String>) -> Seq<Seq<char>> {
    Seq::new(list.len(), |i: int| list[i]@)
}

impl View for Registration {
    type V = RegistrationView;

    open spec fn view(&self) -> RegistrationView {
        RegistrationView {
            id: self.id@,
            url: match self.url {
                Some(url) => Some(url@),
                None => None,
            },
            as_token: self.as_token@,
            hs_token: self.hs_token@,
            sender_localpart: self.sender_localpart@,
            users: namespaces_view(self.users@),
            aliases: namespaces_view(self.aliases@),
            rooms: namespaces_view(self.rooms@),
            rate_limited: self.rate_limited,
            protocols: match self.protocols {
                Some(list) => Some(strings_view(list@)),
                None => None,
            },
            receive_ephemeral: self.receive_ephemeral,
        }
    }
}

/// `serde_yaml::Error`, of which nothing is known but that it is one.
#[verifier::external_type_specification]
#[verifier::external_body]
pub struct ExYamlError(serde_yaml::Error);

/// Stored bytes that are not what the database should hold.
#[derive(Clone, Copy, Debug, PartialEq, Eq, Structural)]
pub enum BadDatabase {
    /// A key is not UTF-8, so it is no id.
    InvalidId,
    /// A value is no registration in YAML.
    InvalidRegistration,
}

impl BadDatabase {
    /// The message that goes with the finding.
    pub fn message(&self) -> (r: &'static str)
        ensures
            r@ == match *self {
                BadDatabase::InvalidId => "Invalid id bytes in id_appserviceregistrations."@,
                BadDatabase::InvalidRegistration =>
                    "Invalid registration bytes in id_appserviceregistrations."@,
            },
    {
        match self {
            BadDatabase::InvalidId => "Invalid id bytes in id_appserviceregistrations.",
            BadDatabase::InvalidRegistration =>
                "Invalid registration bytes in id_appserviceregistrations.",
        }
    }
}

/// What `serde_yaml` reads from `bytes` as a registration of `ruma`, field
/// by field, or nothing where it reads none.
pub uninterp spec fn yaml_registration_of(bytes: Seq<u8>) -> Option<RegistrationView>;

/// Reads `bytes` with `serde_yaml::from_slice` as a registration of `ruma`
/// and moves its fields over, one for one. Claimed: whether the call
/// succeeds, and what the registration holds, depend on the bytes alone.
#[verifier::external_body]
pub(crate) fn registration_from_yaml(bytes: &[u8]) -> (r: Result<Registration, serde_yaml::Error>)
    ensures
        match yaml_registration_of(bytes@) {
            Some(v) => r matches Ok(x) && x@ == v,
            None => r is Err,
        },
{
    let r: ruma::api::appservice::Registration = serde_yaml::from_slice(bytes)?;
    let ns = |v: Vec<ruma::api::appservice::Namespace>| {
        v.into_iter().map(|n| Namespace { exclusive: n.exclusive, regex: n.regex }).collect()
    };
    Ok(Registration {
        id: r.id, url: r.url, as_token: r.as_token, hs_token: r.hs_token,
        sender_localpart: r.sender_localpart,
        users: ns(r.namespaces.users), aliases: ns(r.namespaces.aliases),
        rooms: ns(r.namespaces.rooms),
        rate_limited: r.rate_limited, protocols: r.protocols,
        receive_ephemeral: r.receive_ephemeral,
    })
}

/// What stored bytes give when read as a registration.
pub open spec fn registration_of(bytes: Seq<u8>) -> Result<RegistrationView, BadDatabase> {
    match yaml_registration_of(bytes) {
        Some(v) => Ok(v),
        None => Err(BadDatabase::InvalidRegistration),
    }
}

/// The registration that a stored value holds.
pub fn registration_from_bytes(bytes: &[u8]) -> (r: Result<Registration, BadDatabase>)
    ensures
        match registration_of(bytes@) {
            Ok(v) => r matches Ok(x) && x@ == v,
            Err(e) => r matches Err(f) && f == e,
        },
{
    match registration_from_yaml(bytes) {
        Ok(registration) => Ok(registration),
        Err(_) => Err(BadDatabase::InvalidRegistration),
    }
}

/// What a lookup gave, read as a registration: nothing where nothing was
/// stored.
pub fn get_registration(stored: Option<Vec<u8>>) -> (r: Result<Option<Registration>, BadDatabase>)
    ensures
        match stored {
            None => r matches Ok(None),
            Some(bytes) => match registration_of(bytes@) {
                Ok(v) => r matches Ok(Some(x)) && x@ == v,
                Err(e) => r matches Err(f) && f == e,
            },
        },
{
    match stored {
        None => Ok(None),
        Some(bytes) => match registration_from_bytes(bytes.as_slice()) {
            Ok(registration) => Ok(Some(registration)),
            Err(e) => Err(e),
        },
    }
}

/// What a key gives when read as an id.
pub open spec fn id_of(key: Seq<u8>) -> Result<Seq<char>, BadDatabase> {
    match text_of(key) {
        Ok(s) => Ok(s),
        Err(_) => Err(BadDatabase::InvalidId),
    }
}

/// The id that a stored key holds.
pub fn id_from_bytes(key: &[u8]) -> (r: Result<String, BadDatabase>)
    ensures
        match id_of(key@) {
            Ok(s) => r matches Ok(t) && t@ == s,
            Err(e) => r matches Err(f) && f == e,
        },
{
    match string_from_bytes(key) {
        Ok(id) => Ok(id),
        Err(_) => Err(BadDatabase::InvalidId),
    }
}

/// The ids of all stored keys, in order; a key that is no id is reported in
/// its place.
pub fn iter_ids(keys: &Vec<Vec<u8>>) -> (r: Vec<Result<String, BadDatabase>>)
    ensures
        r@.len() == keys@.len(),
        forall|i: int|
            0 <= i < keys@.len() ==> match id_of(keys@[i]@) {
                Ok(s) => (#[trigger] r@[i]) matches Ok(t) && t@ == s,
                Err(e) => r@[i] matches Err(f) && f == e,
            },
{
    let mut out: Vec<Result<String, BadDatabase>> = Vec::new();
    let mut i: usize = 0;
    while i < keys.len()
        invariant
            i <= keys@.len(),
            out@.len() == i,
            forall|j: int|
                0 <= j < i ==> match id_of(keys@[j]@) {
                    Ok(s) => (#[trigger] out@[j]) matches Ok(t) && t@ == s,
                    Err(e) => out@[j] matches Err(f) && f == e,
                },
        decreases keys@.len() - i,
    {
        out.push(id_from_bytes(keys[i].as_slice()));
        i += 1;
    }
    out
}

/// The registrations of `entries` with their ids, in order: for each entry
/// whose key is UTF-8, the key as id and what the entry's own value holds.
pub open spec fn registrations_of(entries: Seq<(Vec<u8>, Vec<u8>)>) -> Seq<
    (Seq<char>, RegistrationView),
>
    decreases entries.len(),
{
    if entries.len() == 0 {
        Seq::empty()
    } else {
        match text_of(entries.last().0@) {
            Ok(id) => registrations_of(entries.drop_last()).push(
                (id, yaml_registration_of(entries.last().1@).unwrap()),
            ),
            Err(_) => registrations_of(entries.drop_last()),
        }
    }
}

/// True when every entry of `entries` whose key is an id holds a
/// registration.
pub open spec fn all_accepted(entries: Seq<(Vec<u8>, Vec<u8>)>) -> bool {
    forall|i: int|
        0 <= i < entries.len() && valid_utf8((#[trigger] entries[i]).0@) ==> yaml_registration_of(
            entries[i].1@,
        ) is Some
}

/// A list of registrations with their ids, as mathematics.
pub open spec fn pairs_of(list: Seq<(String, Registration)>) -> Seq<(Seq<char>, RegistrationView)> {
    Seq::new(list.len(), |i: int| (list[i].0@, list[i].1@))
}

/// All registrations with their ids, from the stored entries in order.
/// An entry whose key is no id is passed over. An entry whose value is no
/// registration fails the whole.
pub fn all(entries: &Vec<(Vec<u8>, Vec<u8>)>) -> (r: Result<
    Vec<(String, Registration)>,
    BadDatabase,
>)
    ensures
        all_accepted(entries@) ==> (r matches Ok(list) && pairs_of(list@) == registrations_of(
            entries@,
        )),
        !all_accepted(entries@) ==> (r matches Err(e) && e == BadDatabase::InvalidRegistration),
{
    let mut out: Vec<(String, Registration)> = Vec::new();
    let mut i: usize = 0;
    assert(entries@.take(0) =~= Seq::<(Vec<u8>, Vec<u8>)>::empty());
    assert(pairs_of(out@) =~= registrations_of(entries@.take(0)));
    while i < entries.len()
        invariant
            i <= entries@.len(),
            pairs_of(out@) == registrations_of(entries@.take(i as int)),
            all_accepted(entries@.take(i as int)),
        decreases entries@.len() - i,
    {
        let ghost before = entries@.take(i as int);
        let ghost after = entries@.take(i + 1);
        proof {
            assert(after.drop_last() =~= before);
            assert(after.last() == entries@[i as int]);
        }
        match string_from_bytes(entries[i].0.as_slice()) {
            Ok(id) => {
                match registration_from_bytes(entries[i].1.as_slice()) {
                    Ok(registration) => {
                        let ghost pairs = pairs_of(out@);
                        let ghost pair = (id@, registration@);
                        out.push((id, registration));
                        proof {
                            assert(pairs_of(out@) =~= pairs.push(pair));
                        }
                    },
                    Err(e) => {
                        assert(!all_accepted(entries@)) by {
                            assert(valid_utf8(entries@[i as int].0@));
                        }
                        return Err(e);
                    },
                }
            },
            Err(_) => {},
        }
        proof {
            assert forall|j: int| 0 <= j < after.len() && valid_utf8((#[trigger] after[j]).0@)
                implies yaml_registration_of(after[j].1@) is Some by {
                if j < i {
                    assert(before[j] == after[j]);
                }
            }
        }
        i += 1;
    }
    proof {
        assert(entries@.take(i as int) =~= entries@);
    }
    Ok(out)
}

} // verus!
