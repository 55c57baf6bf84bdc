//! The registry of tenants: which storage handle serves which tenant id.
//!
//! The registry is a plain value. Whoever shares it between requests guards it
//! with one lock and holds the lock from the lookup that misses to the
//! registration that follows: then no tenant ever gets two handles.

use crate::text::same_text;
use vstd::prelude::*;
use vstd::string::*;

verus! {

/// The tenant that a request without a tenant id is about.
pub const DEFAULT_TENANT: &'static str = "default";

/// The tenant is not registered.
#[derive(Clone, Copy, Debug, PartialEq, Eq)]
pub struct NotFound {}

/// The tenant id of a request.
pub fn tenant_of<'a>(user_id: Option<&'a str>) -> (r: &'a str)
    ensures
        r@ == match user_id {
            Some(id) => id@,
            None => DEFAULT_TENANT@,
        },
{
    match user_id {
        Some(id) => id,
        None => DEFAULT_TENANT,
    }
}

/// Where the dataset of tenant `id` is kept.
pub open spec fn storage_path(id: Seq<char>) -> Seq<char> {
    "./temp_dbs/"@ + id + ".sqlite"@
}

/// Writes the path where the dataset of tenant `id` is kept.
pub fn database_path(id: &str) -> (r: String)
    ensures
        r@ == storage_path(id@),
{
    let mut path = String::from_str("./temp_dbs/");
    path.append(id);
    path.append(".sqlite");
    path
}

/// Two tenants never share a dataset: different ids have different paths.
pub proof fn lemma_storage_paths_differ(a: Seq<char>, b: Seq<char>)
    requires
        a != b,
    ensures
        storage_path(a) != storage_path(b),
{
    let head = "./temp_dbs/"@;
    let tail = ".sqlite"@;
    if storage_path(a) == storage_path(b) {
        assert(a.len() == b.len()) by {
            assert((head + a + tail).len() == (head + b + tail).len());
        }
        assert forall|i: int| 0 <= i < a.len() implies a[i] == b[i] by {
            assert((head + a + tail)[head.len() + i] == a[i]);
            assert((head + b + tail)[head.len() + i] == b[i]);
        }
        assert(a =~= b);
    }
}

/// Whether entry `i` of `entries` is that of tenant `id`.
pub open spec fn is_entry_of<H>(entries: Seq<(Seq<char>, H)>, id: Seq<char>, i: int) -> bool {
    0 <= i < entries.len() && entries[i].0 == id
}

/// Whether no tenant id has two entries.
pub open spec fn one_entry_each<H>(entries: Seq<(Seq<char>, H)>) -> bool {
    forall|i: int, j: int| 0 <= i < j < entries.len() ==> entries[i].0 != entries[j].0
}

/// The handle of each tenant that has an entry.
pub open spec fn handles<H>(entries: Seq<(Seq<char>, H)>) -> Map<Seq<char>, H> {
    Map::new(
        |id: Seq<char>| exists|i: int| is_entry_of(entries, id, i),
        |id: Seq<char>| entries[choose|i: int| is_entry_of(entries, id, i)].1,
    )
}

proof fn lemma_handle_of_entry<H>(entries: Seq<(Seq<char>, H)>, i: int)
    requires
        one_entry_each(entries),
        0 <= i < entries.len(),
    ensures
        handles(entries).contains_key(entries[i].0),
        handles(entries)[entries[i].0] == entries[i].1,
{
    let id = entries[i].0;
    assert(is_entry_of(entries, id, i));
    let j = choose|j: int| is_entry_of(entries, id, j);
    assert(i == j);
}

proof fn lemma_handles_after_push<H>(entries: Seq<(Seq<char>, H)>, id: Seq<char>, handle: H)
    requires
        one_entry_each(entries),
        forall|i: int| !is_entry_of(entries, id, i),
    ensures
        one_entry_each(entries.push((id, handle))),
        handles(entries.push((id, handle))) == handles(entries).insert(id, handle),
{
    let more = entries.push((id, handle));
    assert forall|i: int, j: int| 0 <= i < j < more.len() implies more[i].0 != more[j].0 by {
        if j == entries.len() {
            assert(!is_entry_of(entries, id, i));
        }
    }
    assert forall|key: Seq<char>| #[trigger]
        handles(more).contains_key(key) == handles(entries).insert(id, handle).contains_key(
            key,
        ) by {
        if handles(more).contains_key(key) {
            let i = choose|i: int| is_entry_of(more, key, i);
            if i < entries.len() {
                assert(is_entry_of(entries, key, i));
            }
        }
        if handles(entries).contains_key(key) {
            let i = choose|i: int| is_entry_of(entries, key, i);
            assert(is_entry_of(more, key, i));
        }
        if key == id {
            assert(is_entry_of(more, key, entries.len() as int));
        }
    }
    assert forall|key: Seq<char>| #[trigger] handles(more).contains_key(key) implies handles(
        more,
    )[key] == handles(entries).insert(id, handle)[key] by {
        let i = choose|i: int| is_entry_of(more, key, i);
        lemma_handle_of_entry(more, i);
        if i < entries.len() {
            assert(is_entry_of(entries, key, i));
            lemma_handle_of_entry(entries, i);
        }
    }
    assert(handles(more) =~= handles(entries).insert(id, handle));
}

proof fn lemma_handles_after_remove<H>(entries: Seq<(Seq<char>, H)>, at: int)
    requires
        one_entry_each(entries),
        0 <= at < entries.len(),
    ensures
        one_entry_each(entries.remove(at)),
        handles(entries.remove(at)) == handles(entries).remove(entries[at].0),
{
    let fewer = entries.remove(at);
    let id = entries[at].0;
    assert forall|key: Seq<char>| #[trigger]
        handles(fewer).contains_key(key) == handles(entries).remove(id).contains_key(key) by {
        if handles(fewer).contains_key(key) {
            let i = choose|i: int| is_entry_of(fewer, key, i);
            if i < at {
                assert(is_entry_of(entries, key, i));
            } else {
                assert(is_entry_of(entries, key, i + 1));
            }
        }
        if handles(entries).contains_key(key) && key != id {
            let i = choose|i: int| is_entry_of(entries, key, i);
            if i < at {
                assert(is_entry_of(fewer, key, i));
            } else {
                assert(is_entry_of(fewer, key, i - 1));
            }
        }
    }
    assert forall|key: Seq<char>| #[trigger] handles(fewer).contains_key(key) implies handles(
        fewer,
    )[key] == handles(entries).remove(id)[key] by {
        let i = choose|i: int| is_entry_of(fewer, key, i);
        lemma_handle_of_entry(fewer, i);
        if i < at {
            lemma_handle_of_entry(entries, i);
        } else {
            lemma_handle_of_entry(entries, i + 1);
        }
    }
    assert(handles(fewer) =~= handles(entries).remove(id));
}

spec fn entries_of<H>(tenants: Seq<(String, H)>) -> Seq<(Seq<char>, H)> {
    Seq::new(tenants.len(), |i: int| (tenants[i].0@, tenants[i].1))
}

/// The tenants that are served, each with its handle.
pub struct Registry<H> {
    tenants: Vec<(String, H)>,
}

impl<H> View for Registry<H> {
    type V = Map<Seq<char>, H>;

    /// The handle of each registered tenant.
    open spec fn view(&self) -> Map<Seq<char>, H> {
        handles(self.entries())
    }
}

impl<H> Registry<H> {
    /// The registrations, oldest first: tenant id and handle.
    pub closed spec fn entries(&self) -> Seq<(Seq<char>, H)> {
        entries_of(self.tenants@)
    }

    /// No tenant id is registered twice.
    pub open spec fn wf(&self) -> bool {
        one_entry_each(self.entries())
    }

    #[verifier::type_invariant]
    spec fn inv(&self) -> bool {
        self.wf()
    }

    /// A registry without tenants.
    pub fn new() -> (r: Registry<H>)
        ensures
            r.wf(),
            r@ == Map::<Seq<char>, H>::empty(),
            r.entries().len() == 0,
    {
        let r = Registry { tenants: Vec::new() };
        assert(r@ =~= Map::<Seq<char>, H>::empty());
        r
    }

    /// Moves the registrations out and leaves none behind.
    fn take_tenants(&mut self) -> (r: Vec<(String, H)>)
        ensures
            r == old(self).tenants,
            final(self).tenants@.len() == 0,
    {
        let mut tenants: Vec<(String, H)> = Vec::new();
        core::mem::swap(&mut self.tenants, &mut tenants);
        tenants
    }

    fn find(&self, id: &str) -> (r: Option<usize>)
        ensures
            match r {
                Some(i) => is_entry_of(self.entries(), id@, i as int),
                None => forall|i: int| !is_entry_of(self.entries(), id@, i),
            },
    {
        let mut i: usize = 0;
        while i < self.tenants.len()
            invariant
                i <= self.tenants.len(),
                forall|j: int| 0 <= j < i ==> !is_entry_of(self.entries(), id@, j),
            decreases self.tenants.len() - i,
        {
            if same_text(self.tenants[i].0.as_str(), id) {
                return Some(i);
            }
            i += 1;
        }
        None
    }

    /// The handle of tenant `id`, if it is registered. Registers nothing.
    pub fn resolve(&self, id: &str) -> (r: Option<&H>)
        ensures
            self.wf(),
            match r {
                Some(handle) => self@.contains_key(id@) && *handle == self@[id@],
                None => !self@.contains_key(id@),
            },
    {
        proof {
            use_type_invariant(self);
        }
        match self.find(id) {
            Some(i) => {
                proof {
                    lemma_handle_of_entry(self.entries(), i as int);
                }
                Some(&self.tenants[i].1)
            },
            None => None,
        }
    }

    /// Whether tenant `id` is registered.
    pub fn is_registered(&self, id: &str) -> (r: bool)
        ensures
            r == self@.contains_key(id@),
    {
        self.resolve(id).is_some()
    }

    /// Registers `handle` for tenant `id` unless the tenant has one: then the
    /// registry stays as it is and `handle` comes back unused.
    pub fn provision(&mut self, id: &str, handle: H) -> (r: Option<H>)
        ensures
            final(self).wf(),
            old(self)@.contains_key(id@) ==> final(self)@ == old(self)@ && r == Some(handle)
                && final(self).entries() == old(self).entries(),
            !old(self)@.contains_key(id@) ==> final(self)@ == old(self)@.insert(id@, handle)
                && r is None && final(self).entries() == old(self).entries().push((id@, handle)),
    {
        proof {
            use_type_invariant(&*self);
        }
        match self.find(id) {
            Some(i) => {
                proof {
                    lemma_handle_of_entry(self.entries(), i as int);
                }
                Some(handle)
            },
            None => {
                proof {
                    lemma_handles_after_push(self.entries(), id@, handle);
                }
                let mut tenants = self.take_tenants();
                tenants.push((String::from_str(id), handle));
                assert(entries_of(tenants@) =~= old(self).entries().push((id@, handle)));
                self.tenants = tenants;
                None
            },
        }
    }

    /// Takes tenant `id` out of the registry and hands its handle over, for the
    /// caller to close it and delete what it stored. `None` where the tenant
    /// was not registered.
    pub fn replace(&mut self, id: &str) -> (r: Option<H>)
        ensures
            final(self).wf(),
            final(self)@ == old(self)@.remove(id@),
            r == if old(self)@.contains_key(id@) {
                Some(old(self)@[id@])
            } else {
                None
            },
    {
        proof {
            use_type_invariant(&*self);
        }
        match self.find(id) {
            Some(i) => {
                proof {
                    lemma_handle_of_entry(self.entries(), i as int);
                    lemma_handles_after_remove(self.entries(), i as int);
                }
                let mut tenants = self.take_tenants();
                let (_, handle) = tenants.remove(i);
                assert(entries_of(tenants@) =~= old(self).entries().remove(i as int));
                self.tenants = tenants;
                Some(handle)
            },
            None => {
                assert(self@ =~= old(self)@.remove(id@));
                None
            },
        }
    }

    /// Takes tenant `id` out of the registry and hands its handle over.
    /// `NotFound` where the tenant was not registered; the registry is then as
    /// it was.
    pub fn evict(&mut self, id: &str) -> (r: Result<H, NotFound>)
        ensures
            final(self).wf(),
            final(self)@ == old(self)@.remove(id@),
            match r {
                Ok(handle) => old(self)@.contains_key(id@) && handle == old(self)@[id@],
                Err(_) => !old(self)@.contains_key(id@) && final(self)@ == old(self)@,
            },
    {
        match self.replace(id) {
            Some(handle) => Ok(handle),
            None => {
                assert(old(self)@.remove(id@) =~= old(self)@);
                Err(NotFound {  })
            },
        }
    }
}

/// A tenant has at most one handle, and it is the one that the registry
/// resolves: of two registrations of one tenant id the second does not exist.
pub proof fn lemma_one_handle_per_tenant<H>(registry: Registry<H>, i: int, j: int)
    requires
        registry.wf(),
        0 <= i < registry.entries().len(),
        0 <= j < registry.entries().len(),
        registry.entries()[i].0 == registry.entries()[j].0,
    ensures
        i == j,
        registry@.contains_key(registry.entries()[i].0),
        registry@[registry.entries()[i].0] == registry.entries()[i].1,
{
    lemma_handle_of_entry(registry.entries(), i);
}

/// Replacing a tenant and provisioning it anew leaves it with the new handle
/// and no other, whatever it had before.
pub proof fn lemma_replace_then_provision<H>(before: Map<Seq<char>, H>, id: Seq<char>, handle: H)
    ensures
        before.remove(id).insert(id, handle)[id] == handle,
        before.remove(id).insert(id, handle) == before.insert(id, handle),
{
    assert(before.remove(id).insert(id, handle) =~= before.insert(id, handle));
}

} // verus!
