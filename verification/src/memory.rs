//! The memory file: what the app remembers about the local machine, as
//! key/value entries in categories.
use vstd::prelude::*;
use crate::clock::{now_rfc3339, rfc3339_text, Timestamp};
use crate::text::{copy_str, push_str, str_eq};

verus! {

/// One remembered fact.
pub struct MemoryEntry {
    pub key: String,
    pub value: String,
    pub category: String,
}

/// What an entry is, as contracts speak of it.
pub struct EntryView {
    pub key: Seq<char>,
    pub value: Seq<char>,
    pub category: Seq<char>,
}

impl View for MemoryEntry {
    type V = EntryView;

    open spec fn view(&self) -> EntryView {
        EntryView { key: self.key@, value: self.value@, category: self.category@ }
    }
}

impl MemoryEntry {
    /// A copy of the entry.
    pub fn duplicate(&self) -> (r: MemoryEntry)
        ensures
            r@ == self@,
    {
        MemoryEntry {
            key: self.key.clone(),
            value: self.value.clone(),
            category: self.category.clone(),
        }
    }
}

/// The views of `v`, in order.
pub open spec fn entry_views(v: Seq<MemoryEntry>) -> Seq<EntryView> {
    Seq::new(v.len(), |i: int| v[i]@)
}

/// The index of the first entry from `j` on whose key is `key`
/// (`es.len()` when there is none).
pub open spec fn first_with_key(es: Seq<EntryView>, key: Seq<char>, j: int) -> int
    decreases es.len() - j,
{
    if j < 0 || j >= es.len() {
        es.len() as int
    } else if es[j].key == key {
        j
    } else {
        first_with_key(es, key, j + 1)
    }
}

/// The value stored under `key`: that of the first entry with this key.
pub open spec fn lookup(es: Seq<EntryView>, key: Seq<char>) -> Option<Seq<char>> {
    let i = first_with_key(es, key, 0);
    if 0 <= i < es.len() {
        Some(es[i].value)
    } else {
        None
    }
}

/// The entries after storing `value` in `category` under `key`: the first
/// entry with that key gets the value and category, or a new entry is
/// added after the others.
pub open spec fn with_entry(es: Seq<EntryView>, key: Seq<char>, value: Seq<char>, category: Seq<char>) -> Seq<
    EntryView,
> {
    let i = first_with_key(es, key, 0);
    if 0 <= i < es.len() {
        es.update(i, EntryView { key: es[i].key, value, category })
    } else {
        es.push(EntryView { key, value, category })
    }
}

/// The entries of `es` in category `category`, in order.
pub open spec fn in_category(es: Seq<EntryView>, category: Seq<char>) -> Seq<EntryView>
    decreases es.len(),
{
    if es.len() == 0 {
        Seq::empty()
    } else {
        let rest = in_category(es.drop_last(), category);
        if es.last().category == category {
            rest.push(es.last())
        } else {
            rest
        }
    }
}

/// What `first_with_key` returns is in range exactly when some entry has
/// the key, and then it is the first such entry.
pub proof fn lemma_first_with_key(es: Seq<EntryView>, key: Seq<char>, j: int)
    requires
        0 <= j <= es.len(),
    ensures
        j <= first_with_key(es, key, j) <= es.len(),
        first_with_key(es, key, j) < es.len() ==> es[first_with_key(es, key, j)].key == key,
        forall|k: int| j <= k < first_with_key(es, key, j) ==> #[trigger] es[k].key != key,
    decreases es.len() - j,
{
    if j < es.len() && es[j].key != key {
        lemma_first_with_key(es, key, j + 1);
    }
}

/// The whole memory file.
pub struct MemoryStore {
    pub machine_name: String,
    pub os: String,
    pub architecture: String,
    pub hermes_endpoints: Vec<String>,
    pub entries: Vec<MemoryEntry>,
    pub last_updated: String,
}

impl MemoryStore {
    /// The store used when no memory file can be read: machine `"unknown"`,
    /// the given operating system and architecture, no endpoints, no
    /// entries, stamped with the current time.
    pub fn default_store(os: &str, arch: &str) -> (r: MemoryStore)
        ensures
            r.machine_name@ == "unknown"@,
            r.os@ == os@,
            r.architecture@ == arch@,
            r.hermes_endpoints@.len() == 0,
            r.entries@.len() == 0,
            exists|t: Timestamp| rfc3339_text(t.secs, t.nanos) == Some(r.last_updated@),
    {
        MemoryStore {
            machine_name: copy_str("unknown"),
            os: copy_str(os),
            architecture: copy_str(arch),
            hermes_endpoints: Vec::new(),
            entries: Vec::new(),
            last_updated: now_rfc3339(),
        }
    }

    /// The path of the memory file under the data directory `dir` (the
    /// working directory when there is none): `<dir>/.retana/memory.yaml`,
    /// with the separators of Windows when `windows` holds.
    pub fn memory_path(dir: Option<&str>, windows: bool) -> (r: String)
        ensures
            r@ == crate::config::join_path(
                crate::config::join_path(
                    match dir {
                        Some(d) => d@,
                        None => "."@,
                    },
                    ".retana"@,
                    windows,
                ),
                "memory.yaml"@,
                windows,
            ),
    {
        let base = match dir {
            Some(d) => copy_str(d),
            None => copy_str("."),
        };
        let with_dir = crate::config::join_path_str(base.as_str(), ".retana", windows);
        crate::config::join_path_str(with_dir.as_str(), "memory.yaml", windows)
    }

    /// Stores `value` in `category` under `key` and stamps the store with
    /// `stamp`.
    pub fn set_stamped(&mut self, key: &str, value: &str, category: &str, stamp: String)
        ensures
            entry_views(final(self).entries@) == with_entry(
                entry_views(old(self).entries@),
                key@,
                value@,
                category@,
            ),
            final(self).last_updated@ == stamp@,
            final(self).machine_name == old(self).machine_name,
            final(self).os == old(self).os,
            final(self).architecture == old(self).architecture,
            final(self).hermes_endpoints == old(self).hermes_endpoints,
    {
        let ghost es = entry_views(self.entries@);
        let mut i: usize = 0;
        proof {
            lemma_first_with_key(es, key@, 0);
        }
        while i < self.entries.len()
            invariant
                i <= self.entries.len(),
                es == entry_views(self.entries@),
                es == entry_views(old(self).entries@),
                self.machine_name == old(self).machine_name,
                self.os == old(self).os,
                self.architecture == old(self).architecture,
                self.hermes_endpoints == old(self).hermes_endpoints,
                first_with_key(es, key@, 0) == first_with_key(es, key@, i as int),
            decreases self.entries.len() - i,
        {
            if str_eq(self.entries[i].key.as_str(), key) {
                let entry = MemoryEntry {
                    key: self.entries[i].key.clone(),
                    value: copy_str(value),
                    category: copy_str(category),
                };
                self.entries.set(i, entry);
                assert(first_with_key(es, key@, i as int) == i as int);
                assert(entry_views(self.entries@) =~= with_entry(es, key@, value@, category@));
                self.last_updated = stamp;
                return ;
            }
            i = i + 1;
        }
        assert(first_with_key(es, key@, i as int) == es.len());
        let entry = MemoryEntry { key: copy_str(key), value: copy_str(value), category: copy_str(category) };
        self.entries.push(entry);
        assert(entry_views(self.entries@) =~= with_entry(es, key@, value@, category@));
        self.last_updated = stamp;
    }

    /// Adds or updates an entry (`set`): as [`MemoryStore::set_stamped`],
    /// stamped with the current time as RFC 3339 text.
    pub fn set(&mut self, key: &str, value: &str, category: &str)
        ensures
            entry_views(final(self).entries@) == with_entry(
                entry_views(old(self).entries@),
                key@,
                value@,
                category@,
            ),
            final(self).machine_name == old(self).machine_name,
            final(self).os == old(self).os,
            final(self).architecture == old(self).architecture,
            final(self).hermes_endpoints == old(self).hermes_endpoints,
            exists|t: Timestamp| rfc3339_text(t.secs, t.nanos) == Some(final(self).last_updated@),
    {
        let stamp = now_rfc3339();
        self.set_stamped(key, value, category, stamp);
    }

    /// The value stored under `key`, from the first entry with that key.
    pub fn get(&self, key: &str) -> (r: Option<&str>)
        ensures
            r is Some <==> lookup(entry_views(self.entries@), key@) is Some,
            r matches Some(v) ==> lookup(entry_views(self.entries@), key@) == Some(v@),
    {
        let ghost es = entry_views(self.entries@);
        let mut i: usize = 0;
        proof {
            lemma_first_with_key(es, key@, 0);
        }
        while i < self.entries.len()
            invariant
                i <= self.entries.len(),
                es == entry_views(self.entries@),
                first_with_key(es, key@, 0) == first_with_key(es, key@, i as int),
            decreases self.entries.len() - i,
        {
            if str_eq(self.entries[i].key.as_str(), key) {
                assert(first_with_key(es, key@, i as int) == i as int);
                return Some(self.entries[i].value.as_str());
            }
            i = i + 1;
        }
        None
    }

    /// The entries in `category`, in order.
    pub fn list_by_category(&self, category: &str) -> (r: Vec<&MemoryEntry>)
        ensures
            r@.len() == in_category(entry_views(self.entries@), category@).len(),
            forall|i: int|
                0 <= i < r@.len() ==> (#[trigger] r@[i])@ == in_category(
                    entry_views(self.entries@),
                    category@,
                )[i],
    {
        let ghost es = entry_views(self.entries@);
        let mut out: Vec<&MemoryEntry> = Vec::new();
        let mut i: usize = 0;
        assert(es.take(0) =~= Seq::<EntryView>::empty());
        while i < self.entries.len()
            invariant
                i <= self.entries.len(),
                es == entry_views(self.entries@),
                out@.len() == in_category(es.take(i as int), category@).len(),
                forall|j: int|
                    0 <= j < out@.len() ==> (#[trigger] out@[j])@ == in_category(
                        es.take(i as int),
                        category@,
                    )[j],
            decreases self.entries.len() - i,
        {
            assert(es.take(i + 1).drop_last() =~= es.take(i as int));
            assert(es.take(i + 1).last() == self.entries@[i as int]@);
            if str_eq(self.entries[i].category.as_str(), category) {
                let ghost before = out@;
                out.push(&self.entries[i]);
                proof {
                    assert forall|j: int| 0 <= j < out@.len() implies (#[trigger] out@[j])@
                        == in_category(es.take(i + 1), category@)[j] by {
                        if j < before.len() {
                            assert(out@[j] == before[j]);
                        }
                    }
                }
            }
            i = i + 1;
        }
        assert(es.take(i as int) =~= es);
        out
    }

    /// All entries, in order.
    pub fn all_entries(&self) -> (r: &[MemoryEntry])
        ensures
            r@ == self.entries@,
    {
        self.entries.as_slice()
    }
}

} // verus!
