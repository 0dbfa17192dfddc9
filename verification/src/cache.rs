//! Block-cache provisioning: which cache a column gets, and how large.
//!
//! The registry records under which names caches were registered and with
//! what settings each cache was created. A cache is known by its handle, the
//! index at which its settings stand in the list of created caches; whoever
//! owns the native caches keeps them in the same order.

use crate::descriptor::{CacheDisp, Config, Descriptor};
use crate::error::ErrorKind;
use crate::text::str_eq;
use vstd::prelude::*;

verus! {

/// Settings with which a cache is created.
#[derive(Clone, Copy, Debug, PartialEq, Eq, Structural)]
pub struct CacheOptions {
    /// Base-2 logarithm of the number of shards.
    pub shard_bits: i32,
    /// Capacity in bytes.
    pub capacity: usize,
}

/// The cache that a column is opened with.
#[derive(Clone, Copy, Debug, PartialEq, Eq, Structural)]
pub enum CacheUse {
    /// The column runs without a block cache.
    Uncached,
    /// A cache is to be created with these settings; it gets this handle.
    Fresh { handle: usize, options: CacheOptions },
    /// The cache with this handle, created earlier, is used again.
    Existing { handle: usize },
}

impl CacheUse {
    /// The handle of the cache in use, if there is one.
    pub open spec fn spec_handle(&self) -> Option<usize> {
        match *self {
            CacheUse::Uncached => None,
            CacheUse::Fresh { handle, .. } => Some(handle),
            CacheUse::Existing { handle } => Some(handle),
        }
    }

    /// The handle of the cache in use, if there is one.
    #[verifier::when_used_as_spec(spec_handle)]
    pub fn handle(&self) -> (r: Option<usize>)
        ensures
            r == self.spec_handle(),
    {
        match self {
            CacheUse::Uncached => None,
            CacheUse::Fresh { handle, .. } => Some(*handle),
            CacheUse::Existing { handle } => Some(*handle),
        }
    }

    /// True when a block cache is attached.
    pub open spec fn spec_is_cached(&self) -> bool {
        !(*self is Uncached)
    }

    /// True when a block cache is attached.
    #[verifier::when_used_as_spec(spec_is_cached)]
    pub fn is_cached(&self) -> (r: bool)
        ensures
            r == self.spec_is_cached(),
    {
        match self {
            CacheUse::Uncached => false,
            _ => true,
        }
    }
}

/// The name under which the global pool is registered.
pub const SHARED: &'static str = "Shared";

/// What a registry holds: the handle registered under each name, and the
/// settings of every cache created so far, in order of creation.
pub struct RegistryView {
    pub names: Map<Seq<char>, usize>,
    pub created: Seq<CacheOptions>,
}

/// The map that a list of bindings stands for; a later binding of a name
/// replaces an earlier one.
pub open spec fn bindings(s: Seq<(String, usize)>) -> Map<Seq<char>, usize>
    decreases s.len(),
{
    if s.len() == 0 {
        Map::empty()
    } else {
        bindings(s.drop_last()).insert(s.last().0@, s.last().1)
    }
}

/// A name that no binding carries is not bound.
pub proof fn lemma_bindings_absent(s: Seq<(String, usize)>, name: Seq<char>)
    requires
        forall|j: int| 0 <= j < s.len() ==> (#[trigger] s[j]).0@ != name,
    ensures
        !bindings(s).contains_key(name),
    decreases s.len(),
{
    if s.len() > 0 {
        let t = s.drop_last();
        assert forall|j: int| 0 <= j < t.len() implies (#[trigger] t[j]).0@ != name by {
            assert(t[j] == s[j]);
        }
        lemma_bindings_absent(t, name);
        assert(s[s.len() - 1].0@ != name);
    }
}

/// The last binding that carries a name decides its handle.
pub proof fn lemma_bindings_found(s: Seq<(String, usize)>, name: Seq<char>, i: int)
    requires
        0 <= i < s.len(),
        s[i].0@ == name,
        forall|j: int| i < j < s.len() ==> (#[trigger] s[j]).0@ != name,
    ensures
        bindings(s).contains_key(name),
        bindings(s)[name] == s[i].1,
    decreases s.len(),
{
    if i < s.len() - 1 {
        let t = s.drop_last();
        assert(t[i] == s[i]);
        assert forall|j: int| i < j < t.len() implies (#[trigger] t[j]).0@ != name by {
            assert(t[j] == s[j]);
        }
        lemma_bindings_found(t, name, i);
        assert(s[s.len() - 1].0@ != name);
    }
}

/// The caches of one database: names in use and caches created. The names
/// are a map from name to handle, kept as a list of bindings of which the
/// last for a name counts.
pub struct CacheRegistry {
    names: Vec<(String, usize)>,
    created: Vec<CacheOptions>,
}

impl View for CacheRegistry {
    type V = RegistryView;

    closed spec fn view(&self) -> RegistryView {
        RegistryView { names: bindings(self.names@), created: self.created@ }
    }
}

impl RegistryView {
    /// Every registered handle belongs to a cache that was created.
    pub open spec fn wf(self) -> bool {
        forall|name: Seq<char>| #[trigger]
            self.names.contains_key(name) ==> self.names[name] < self.created.len()
    }

    /// The registry after a cache with `options` was created and registered
    /// under `name`.
    pub open spec fn create(self, name: Seq<char>, options: CacheOptions) -> RegistryView {
        RegistryView {
            names: self.names.insert(name, self.created.len() as usize),
            created: self.created.push(options),
        }
    }
}

impl CacheRegistry {
    /// A registry without caches.
    pub fn new() -> (r: CacheRegistry)
        ensures
            r@.names == Map::<Seq<char>, usize>::empty(),
            r@.created == Seq::<CacheOptions>::empty(),
            r@.wf(),
    {
        CacheRegistry { names: Vec::new(), created: Vec::new() }
    }

    /// The number of caches created so far.
    pub fn created(&self) -> (r: usize)
        ensures
            r == self@.created.len(),
    {
        self.created.len()
    }

    /// The settings with which the cache of `handle` was created.
    pub fn options(&self, handle: usize) -> (r: Option<CacheOptions>)
        ensures
            r == if handle < self@.created.len() {
                Some(self@.created[handle as int])
            } else {
                None
            },
    {
        if handle < self.created.len() {
            Some(self.created[handle])
        } else {
            None
        }
    }

    /// The handle registered under `name`, if any.
    pub fn lookup(&self, name: &str) -> (r: Option<usize>)
        ensures
            r == if self@.names.contains_key(name@) {
                Some(self@.names[name@])
            } else {
                None
            },
            self@.wf() ==> (r matches Some(h) ==> h < self@.created.len()),
    {
        let mut i: usize = self.names.len();
        while i > 0
            invariant
                i <= self.names@.len(),
                forall|j: int| i <= j < self.names@.len() ==> (#[trigger] self.names@[j]).0@ != name@,
            decreases i,
        {
            i -= 1;
            if str_eq(self.names[i].0.as_str(), name) {
                let h: usize = self.names[i].1;
                proof {
                    lemma_bindings_found(self.names@, name@, i as int);
                }
                return Some(h);
            }
        }
        proof {
            lemma_bindings_absent(self.names@, name@);
        }
        None
    }

    /// True when a cache is registered under `name`.
    pub fn contains(&self, name: &str) -> (r: bool)
        ensures
            r == self@.names.contains_key(name@),
    {
        self.lookup(name).is_some()
    }

    /// Records that a cache with `options` is created and registers it under
    /// `name`, in place of what was registered there. Returns its handle.
    pub fn create(&mut self, name: &str, options: CacheOptions) -> (handle: usize)
        ensures
            handle == old(self)@.created.len(),
            final(self)@ == old(self)@.create(name@, options),
            old(self)@.wf() ==> final(self)@.wf(),
    {
        let handle: usize = self.created.len();
        let ghost before = self.names@;
        self.created.push(options);
        self.names.push((name.to_owned(), handle));
        proof {
            assert(self.names@.drop_last() =~= before);
            if old(self)@.wf() {
                assert forall|n: Seq<char>| #[trigger]
                    self@.names.contains_key(n) implies self@.names[n] < self@.created.len() by {
                    if n != name@ {
                        assert(old(self)@.names.contains_key(n));
                    }
                }
            }
        }
        handle
    }
}

/// A size hint as a number of bytes; a missing hint counts as zero.
pub open spec fn hint_bytes(hint: Option<usize>) -> int {
    match hint {
        Some(n) => n as int,
        None => 0,
    }
}

/// Bytes that one entity of the column takes: key and value together.
pub open spec fn entity_size(desc: &Descriptor) -> int {
    hint_bytes(desc.key_size_hint) + hint_bytes(desc.val_size_hint)
}

/// The entity count that the configuration sets for a column of this name,
/// for the columns that have such a legacy override.
pub open spec fn capacity_override(name: Seq<char>, config: &Config) -> Option<usize> {
    if name == "eventid_pduid"@ {
        Some(config.eventid_pdu_cache_capacity)
    } else if name == "eventid_shorteventid"@ {
        Some(config.eventidshort_cache_capacity)
    } else if name == "shorteventid_eventid"@ {
        Some(config.shorteventid_cache_capacity)
    } else if name == "shorteventid_authchain"@ {
        Some(config.auth_chain_cache_capacity)
    } else if name == "shortstatekey_statekey"@ {
        Some(config.shortstatekey_cache_capacity)
    } else if name == "statekey_shortstatekey"@ {
        Some(config.statekeyshort_cache_capacity)
    } else if name == "servernameevent_data"@ {
        Some(config.servernameevent_data_cache_capacity)
    } else if name == "pduid_pdu"@ || name == "eventid_outlierpdu"@ {
        Some(config.pdu_cache_capacity)
    } else {
        None
    }
}

/// Capacity in bytes of a cache made for the column: the overriding entity
/// count times the entity size, or else the descriptor's own cache size.
pub open spec fn cache_bytes(desc: &Descriptor, config: &Config) -> int {
    match capacity_override(desc.name@, config) {
        Some(count) => count * entity_size(desc),
        None => desc.cache_size as int,
    }
}

/// True when the sizing arithmetic for the column stays within `usize`.
pub open spec fn sizing_fits(desc: &Descriptor, config: &Config) -> bool {
    entity_size(desc) <= usize::MAX && cache_bytes(desc, config) <= usize::MAX
}

/// The settings of a cache made for the column.
pub open spec fn cache_options(desc: &Descriptor, config: &Config) -> CacheOptions {
    CacheOptions { shard_bits: desc.cache_shards.log2(), capacity: cache_bytes(desc, config) as usize }
}

/// What provisioning a column does to a registry, and what it answers.
///
/// A dropped column gets no cache. Sizing that overflows is an error. A
/// column with a cache of its own gets a fresh one, registered under its
/// name, unless its cache size is zero. A column that shares with another
/// gets the cache registered under that name, or where there is none a fresh
/// one, registered under its own name. A column of the global pool gets the
/// cache registered as `Shared`.
pub open spec fn provision(reg: RegistryView, desc: &Descriptor, config: &Config) -> (
    RegistryView,
    Result<CacheUse, ErrorKind>,
) {
    let handle = reg.created.len() as usize;
    let options = cache_options(desc, config);
    let fresh = (reg.create(desc.name@, options), Ok::<CacheUse, ErrorKind>(CacheUse::Fresh { handle, options }));
    if desc.dropped {
        (reg, Ok(CacheUse::Uncached))
    } else if !sizing_fits(desc, config) {
        (reg, Err(ErrorKind::ConfigOverflow))
    } else {
        match desc.cache_disp {
            CacheDisp::Unique => if desc.cache_size == 0 {
                (reg, Ok(CacheUse::Uncached))
            } else {
                fresh
            },
            CacheDisp::SharedWith(other) => if reg.names.contains_key(other@) {
                (reg, Ok(CacheUse::Existing { handle: reg.names[other@] }))
            } else {
                fresh
            },
            CacheDisp::Shared => (reg, Ok(CacheUse::Existing { handle: reg.names[SHARED@] })),
        }
    }
}

/// True when provisioning the column looks up the global pool.
pub open spec fn needs_shared(desc: &Descriptor, config: &Config) -> bool {
    !desc.dropped && sizing_fits(desc, config) && desc.cache_disp is Shared
}

/// Bytes that one entity of the column takes, where that fits in `usize`.
pub fn entity_bytes(desc: &Descriptor) -> (r: Option<usize>)
    ensures
        r == if entity_size(desc) <= usize::MAX {
            Some(entity_size(desc) as usize)
        } else {
            None
        },
{
    let key_size: usize = match desc.key_size_hint {
        Some(n) => n,
        None => 0,
    };
    let val_size: usize = match desc.val_size_hint {
        Some(n) => n,
        None => 0,
    };
    key_size.checked_add(val_size)
}

/// Capacity in bytes of a cache made for the column, or the error of
/// sizing that overflows.
pub fn cache_capacity(desc: &Descriptor, config: &Config) -> (r: Result<usize, ErrorKind>)
    ensures
        r == if sizing_fits(desc, config) {
            Ok::<usize, ErrorKind>(cache_bytes(desc, config) as usize)
        } else {
            Err::<usize, ErrorKind>(ErrorKind::ConfigOverflow)
        },
{
    let ent_size: usize = match entity_bytes(desc) {
        Some(n) => n,
        None => {
            return Err(ErrorKind::ConfigOverflow);
        },
    };
    match capacity_for(desc.name, config) {
        Some(count) => cache_size(count, ent_size),
        None => Ok(desc.cache_size),
    }
}

/// True when provisioning the column looks up the global pool, which must
/// then be registered.
pub fn needs_shared_pool(desc: &Descriptor, config: &Config) -> (r: bool)
    ensures
        r == needs_shared(desc, config),
{
    if desc.dropped {
        return false;
    }
    match desc.cache_disp {
        CacheDisp::Shared => cache_capacity(desc, config).is_ok(),
        _ => false,
    }
}

/// The entity count that the configuration sets for a column of this name,
/// where the column has a legacy override.
pub fn capacity_for(name: &str, config: &Config) -> (r: Option<usize>)
    ensures
        r == capacity_override(name@, config),
{
    if str_eq(name, "eventid_pduid") {
        Some(config.eventid_pdu_cache_capacity)
    } else if str_eq(name, "eventid_shorteventid") {
        Some(config.eventidshort_cache_capacity)
    } else if str_eq(name, "shorteventid_eventid") {
        Some(config.shorteventid_cache_capacity)
    } else if str_eq(name, "shorteventid_authchain") {
        Some(config.auth_chain_cache_capacity)
    } else if str_eq(name, "shortstatekey_statekey") {
        Some(config.shortstatekey_cache_capacity)
    } else if str_eq(name, "statekey_shortstatekey") {
        Some(config.statekeyshort_cache_capacity)
    } else if str_eq(name, "servernameevent_data") {
        Some(config.servernameevent_data_cache_capacity)
    } else if str_eq(name, "pduid_pdu") || str_eq(name, "eventid_outlierpdu") {
        Some(config.pdu_cache_capacity)
    } else {
        None
    }
}

/// Bytes for `count` entities of `entity_size` bytes each.
pub fn cache_size(count: usize, entity_size: usize) -> (r: Result<usize, ErrorKind>)
    ensures
        count * entity_size <= usize::MAX ==> r == Ok::<usize, ErrorKind>((count * entity_size) as usize),
        count * entity_size > usize::MAX ==> r == Err::<usize, ErrorKind>(ErrorKind::ConfigOverflow),
{
    match count.checked_mul(entity_size) {
        Some(bytes) => Ok(bytes),
        None => Err(ErrorKind::ConfigOverflow),
    }
}

/// Decides which cache the column is opened with, and records in the
/// registry what is created for it.
pub fn get_cache(registry: &mut CacheRegistry, desc: &Descriptor, config: &Config) -> (r: Result<
    CacheUse,
    ErrorKind,
>)
    requires
        needs_shared(desc, config) ==> old(registry)@.names.contains_key(SHARED@),
    ensures
        (final(registry)@, r) == provision(old(registry)@, desc, config),
        old(registry)@.wf() ==> final(registry)@.wf(),
        old(registry)@.wf() ==> (r matches Ok(u) ==> (u.spec_handle() matches Some(h) ==> h
            < final(registry)@.created.len())),
{
    if desc.dropped {
        return Ok(CacheUse::Uncached);
    }
    let size: usize = match cache_capacity(desc, config) {
        Ok(bytes) => bytes,
        Err(e) => {
            return Err(e);
        },
    };
    let options = CacheOptions { shard_bits: desc.cache_shards.bits(), capacity: size };
    match desc.cache_disp {
        CacheDisp::Unique => {
            if desc.cache_size == 0 {
                Ok(CacheUse::Uncached)
            } else {
                let handle = registry.create(desc.name, options);
                Ok(CacheUse::Fresh { handle, options })
            }
        },
        CacheDisp::SharedWith(other) => {
            match registry.lookup(other) {
                Some(handle) => Ok(CacheUse::Existing { handle }),
                None => {
                    let handle = registry.create(desc.name, options);
                    Ok(CacheUse::Fresh { handle, options })
                },
            }
        },
        CacheDisp::Shared => {
            match registry.lookup(SHARED) {
                Some(handle) => Ok(CacheUse::Existing { handle }),
                None => Ok(CacheUse::Uncached),
            }
        },
    }
}

/// Two columns that share with a name under which a cache is registered
/// both get that cache, and the registry stays as it was.
pub proof fn lemma_shared_with_registered(
    reg: RegistryView,
    first: &Descriptor,
    second: &Descriptor,
    config: &Config,
    owner: Seq<char>,
)
    requires
        reg.names.contains_key(owner),
        first.cache_disp matches CacheDisp::SharedWith(o) && o@ == owner,
        second.cache_disp matches CacheDisp::SharedWith(o) && o@ == owner,
        !first.dropped && sizing_fits(first, config),
        !second.dropped && sizing_fits(second, config),
    ensures
        provision(reg, first, config) == (
            reg,
            Ok::<CacheUse, ErrorKind>(CacheUse::Existing { handle: reg.names[owner] }),
        ),
        provision(provision(reg, first, config).0, second, config) == provision(
            reg,
            first,
            config,
        ),
{
}

/// A column with a cache of its own and two columns that share with it,
/// provisioned in that order, all get the one cache created for the first.
pub proof fn lemma_owner_then_sharers(
    reg: RegistryView,
    owner: &Descriptor,
    first: &Descriptor,
    second: &Descriptor,
    config: &Config,
)
    requires
        owner.cache_disp is Unique && owner.cache_size != 0,
        first.cache_disp matches CacheDisp::SharedWith(o) && o@ == owner.name@,
        second.cache_disp matches CacheDisp::SharedWith(o) && o@ == owner.name@,
        !owner.dropped && sizing_fits(owner, config),
        !first.dropped && sizing_fits(first, config),
        !second.dropped && sizing_fits(second, config),
    ensures
        ({
            let a = provision(reg, owner, config);
            let b = provision(a.0, first, config);
            let c = provision(b.0, second, config);
            let handle = reg.created.len() as usize;
            &&& a.1 == Ok::<CacheUse, ErrorKind>(
                CacheUse::Fresh { handle, options: cache_options(owner, config) },
            )
            &&& b.1 == Ok::<CacheUse, ErrorKind>(CacheUse::Existing { handle })
            &&& c.1 == b.1
            &&& c.0 == a.0
        }),
{
}

/// Provisioning the columns of a table in the order in which they are
/// declared: the registry afterwards and the cache of each column, or the
/// first error, with the columns before it provisioned.
pub open spec fn provision_all(reg: RegistryView, table: Seq<Descriptor>, config: &Config) -> (
    RegistryView,
    Result<Seq<CacheUse>, ErrorKind>,
)
    decreases table.len(),
{
    if table.len() == 0 {
        (reg, Ok(Seq::empty()))
    } else {
        let before = provision_all(reg, table.drop_last(), config);
        match before.1 {
            Ok(uses) => (
                provision(before.0, &table.last(), config).0,
                match provision(before.0, &table.last(), config).1 {
                    Ok(u) => Ok(uses.push(u)),
                    Err(e) => Err(e),
                },
            ),
            Err(_) => before,
        }
    }
}

/// True when provisioning some column of the table looks up the global
/// pool.
pub open spec fn any_needs_shared(table: Seq<Descriptor>, config: &Config) -> bool {
    exists|i: int| 0 <= i < table.len() && needs_shared(&#[trigger] table[i], config)
}

/// Provisioning a column unregisters nothing, and changes what is
/// registered under a name only where it creates a cache for a column of
/// that name.
pub proof fn lemma_provision_keeps(
    reg: RegistryView,
    desc: &Descriptor,
    config: &Config,
    name: Seq<char>,
)
    requires
        reg.names.contains_key(name),
    ensures
        provision(reg, desc, config).0.names.contains_key(name),
        !(desc.name@ == name && provision(reg, desc, config).1 matches Ok(CacheUse::Fresh { .. }))
            ==> provision(reg, desc, config).0.names[name] == reg.names[name],
{
}

/// Provisions the columns of `table` in the order in which they are
/// declared, and stops at the first error.
pub fn get_caches(registry: &mut CacheRegistry, table: &[Descriptor], config: &Config) -> (r:
    Result<Vec<CacheUse>, ErrorKind>)
    requires
        any_needs_shared(table@, config) ==> old(registry)@.names.contains_key(SHARED@),
    ensures
        match r {
            Ok(uses) => provision_all(old(registry)@, table@, config) == (
                final(registry)@,
                Ok::<Seq<CacheUse>, ErrorKind>(uses@),
            ),
            Err(e) => provision_all(old(registry)@, table@, config) == (
                final(registry)@,
                Err::<Seq<CacheUse>, ErrorKind>(e),
            ),
        },
{
    let mut out: Vec<CacheUse> = Vec::new();
    let mut i: usize = 0;
    assert(table@.take(0) =~= Seq::<Descriptor>::empty());
    while i < table.len()
        invariant
            i <= table@.len(),
            provision_all(old(registry)@, table@.take(i as int), config) == (
                registry@,
                Ok::<Seq<CacheUse>, ErrorKind>(out@),
            ),
            any_needs_shared(table@, config) ==> registry@.names.contains_key(SHARED@),
        decreases table@.len() - i,
    {
        let ghost before = registry@;
        proof {
            assert(table@.take(i + 1).drop_last() =~= table@.take(i as int));
            assert(table@.take(i + 1).last() == table@[i as int]);
            if registry@.names.contains_key(SHARED@) {
                lemma_provision_keeps(before, &table@[i as int], config, SHARED@);
            }
        }
        match get_cache(registry, &table[i], config) {
            Ok(u) => {
                out.push(u);
            },
            Err(e) => {
                proof {
                    lemma_provision_all_stops(old(registry)@, table@, config, i + 1);
                }
                return Err(e);
            },
        }
        i += 1;
    }
    proof {
        assert(table@.take(i as int) =~= table@);
    }
    Ok(out)
}

/// Once a column fails, the columns after it are not provisioned: the
/// outcome for the whole table is that of the columns up to the failure.
pub proof fn lemma_provision_all_stops(
    reg: RegistryView,
    table: Seq<Descriptor>,
    config: &Config,
    n: int,
)
    requires
        0 <= n <= table.len(),
        provision_all(reg, table.take(n), config).1 is Err,
    ensures
        provision_all(reg, table, config) == provision_all(reg, table.take(n), config),
    decreases table.len(),
{
    if n < table.len() {
        assert(table.drop_last().take(n) =~= table.take(n));
        lemma_provision_all_stops(reg, table.drop_last(), config, n);
    } else {
        assert(table.take(n) =~= table);
    }
}

/// Where a whole table is provisioned with success, so is every part of it
/// from the start, with the same caches, and each column is provisioned on
/// the registry that the columns before it left.
pub proof fn lemma_provision_all_prefix(
    reg: RegistryView,
    table: Seq<Descriptor>,
    config: &Config,
    n: int,
)
    requires
        0 <= n <= table.len(),
        provision_all(reg, table, config).1 is Ok,
    ensures
        provision_all(reg, table.take(n), config).1 == Ok::<Seq<CacheUse>, ErrorKind>(
            provision_all(reg, table, config).1->Ok_0.take(n),
        ),
        provision_all(reg, table, config).1->Ok_0.len() == table.len(),
        n < table.len() ==> provision(
            provision_all(reg, table.take(n), config).0,
            &table[n],
            config,
        ) == (
            provision_all(reg, table.take(n + 1), config).0,
            Ok::<CacheUse, ErrorKind>(provision_all(reg, table, config).1->Ok_0[n]),
        ),
    decreases table.len(),
{
    let uses = provision_all(reg, table, config).1->Ok_0;
    if table.len() == 0 {
        assert(table.take(n) =~= table);
        assert(uses.take(n) =~= uses);
    } else {
        let shorter = table.drop_last();
        let before = provision_all(reg, shorter, config);
        assert(before.1 is Ok);
        let earlier = before.1->Ok_0;
        lemma_provision_all_prefix(reg, shorter, config, shorter.len() as int);
        assert(uses.len() == table.len());
        if n == table.len() {
            assert(table.take(n) =~= table);
            assert(uses.take(n) =~= uses);
        } else {
            lemma_provision_all_prefix(reg, shorter, config, n);
            assert(shorter.take(n) =~= table.take(n));
            assert(earlier.take(n) =~= uses.take(n));
            if n == table.len() - 1 {
                assert(shorter.take(n) =~= shorter);
                assert(table.take(n + 1) =~= table);
                assert(table[n] == table.last());
            } else {
                assert(shorter.take(n + 1) =~= table.take(n + 1));
                assert(shorter[n] == table[n]);
                assert(earlier[n] == uses[n]);
            }
        }
    }
}

/// A cache that was created for a column stays registered under the
/// column's name while no later column of the same name gets a cache of its
/// own.
proof fn lemma_owner_stays(
    reg: RegistryView,
    table: Seq<Descriptor>,
    config: &Config,
    owner: int,
    upto: int,
)
    requires
        0 <= owner < upto <= table.len(),
        provision_all(reg, table, config).1 is Ok,
        provision_all(reg, table, config).1->Ok_0[owner] is Fresh,
        forall|i: int|
            owner < i < upto && (#[trigger] table[i]).name@ == table[owner].name@ ==> !(
            provision_all(reg, table, config).1->Ok_0[i] is Fresh),
    ensures
        provision_all(reg, table.take(upto), config).0.names.contains_key(table[owner].name@),
        Some(provision_all(reg, table.take(upto), config).0.names[table[owner].name@])
            == provision_all(reg, table, config).1->Ok_0[owner].spec_handle(),
    decreases upto,
{
    let name = table[owner].name@;
    lemma_provision_all_prefix(reg, table, config, upto - 1);
    assert(table.take(upto - 1 + 1) =~= table.take(upto));
    if upto - 1 > owner {
        lemma_owner_stays(reg, table, config, owner, upto - 1);
        let before = provision_all(reg, table.take(upto - 1), config).0;
        lemma_provision_keeps(before, &table[upto - 1], config, name);
    }
}

/// Cache sharing in declaration order. In a table that is provisioned with
/// success, let one column get a cache of its own making, and let two later
/// columns share with it by name. While no column in between that bears the
/// same name gets a cache of its own, both sharers get the cache of the first.
pub proof fn lemma_sharers_agree(
    reg: RegistryView,
    table: Seq<Descriptor>,
    config: &Config,
    owner: int,
    first: int,
    second: int,
)
    requires
        0 <= owner < first < second < table.len(),
        provision_all(reg, table, config).1 is Ok,
        provision_all(reg, table, config).1->Ok_0[owner] is Fresh,
        table[first].cache_disp matches CacheDisp::SharedWith(o) && o@ == table[owner].name@,
        table[second].cache_disp matches CacheDisp::SharedWith(o) && o@ == table[owner].name@,
        !table[first].dropped,
        !table[second].dropped,
        forall|i: int|
            owner < i < second && (#[trigger] table[i]).name@ == table[owner].name@ ==> !(
            provision_all(reg, table, config).1->Ok_0[i] is Fresh),
    ensures
        ({
            let uses = provision_all(reg, table, config).1->Ok_0;
            &&& uses[first] is Existing
            &&& uses[second] == uses[first]
            &&& uses[first].spec_handle() == uses[owner].spec_handle()
        }),
{
    lemma_owner_stays(reg, table, config, owner, first);
    lemma_owner_stays(reg, table, config, owner, second);
    lemma_provision_all_prefix(reg, table, config, first);
    lemma_provision_all_prefix(reg, table, config, second);
}

} // verus!
