use retana::memory::{MemoryEntry, MemoryStore};

fn store() -> MemoryStore {
    MemoryStore::default_store("linux", "x86_64")
}

fn entry(k: &str, v: &str, c: &str) -> MemoryEntry {
    MemoryEntry { key: k.to_string(), value: v.to_string(), category: c.to_string() }
}

#[test]
fn default_store_fields() {
    let s = store();
    assert_eq!(s.machine_name, "unknown");
    assert_eq!(s.os, "linux");
    assert_eq!(s.architecture, "x86_64");
    assert!(s.hermes_endpoints.is_empty());
    assert!(s.entries.is_empty());
    assert!(!s.last_updated.is_empty());
}

#[test]
fn get_after_set() {
    let mut s = store();
    assert_eq!(s.get("k"), None);
    s.set("k", "v1", "c1");
    assert_eq!(s.get("k"), Some("v1"));
    s.set("k", "v2", "c2");
    assert_eq!(s.get("k"), Some("v2"));
    assert_eq!(s.all_entries().len(), 1);
    assert_eq!(s.all_entries()[0].category, "c2");
}

#[test]
fn set_keeps_other_keys() {
    let mut s = store();
    s.set("a", "1", "x");
    s.set("b", "2", "y");
    s.set("a", "3", "x");
    assert_eq!(s.get("b"), Some("2"));
    let keys: Vec<&str> = s.all_entries().iter().map(|e| e.key.as_str()).collect();
    assert_eq!(keys, vec!["a", "b"]);
}

#[test]
fn set_stamped_sets_the_stamp() {
    let mut s = store();
    s.set_stamped("a", "1", "x", "2024-01-01T00:00:00+00:00".to_string());
    assert_eq!(s.last_updated, "2024-01-01T00:00:00+00:00");
}

#[test]
fn duplicate_keys_read_and_update_the_first() {
    let mut s = store();
    s.entries.push(entry("d", "first", "c"));
    s.entries.push(entry("d", "second", "c"));
    assert_eq!(s.get("d"), Some("first"));
    s.set("d", "new", "c");
    assert_eq!(s.entries[0].value, "new");
    assert_eq!(s.entries[1].value, "second");
}

#[test]
fn list_by_category_in_order() {
    let mut s = store();
    s.set("a", "1", "os");
    s.set("b", "2", "net");
    s.set("c", "3", "os");
    let os: Vec<&str> = s.list_by_category("os").iter().map(|e| e.key.as_str()).collect();
    assert_eq!(os, vec!["a", "c"]);
    assert!(s.list_by_category("none").is_empty());
}

#[test]
fn memory_path() {
    assert_eq!(MemoryStore::memory_path(Some("/home/u/.config"), false), "/home/u/.config/.retana/memory.yaml");
    assert_eq!(MemoryStore::memory_path(None, false), "./.retana/memory.yaml");
    assert_eq!(MemoryStore::memory_path(Some("/"), false), "/.retana/memory.yaml");
    assert_eq!(
        MemoryStore::memory_path(Some("C:\\Users\\u\\AppData\\Roaming"), true),
        "C:\\Users\\u\\AppData\\Roaming\\.retana\\memory.yaml"
    );
}

#[test]
fn set_stamps_the_store_with_rfc3339_time() {
    let mut m = MemoryStore::default_store("linux", "x86_64");
    assert!(chrono::DateTime::parse_from_rfc3339(&m.last_updated).is_ok());
    m.set("k", "v", "c");
    let stamp = chrono::DateTime::parse_from_rfc3339(&m.last_updated).unwrap();
    assert!(stamp.timestamp() > 1_600_000_000);
    assert!(chrono::DateTime::parse_from_rfc3339(&retana::clock::now_rfc3339()).is_ok());
}
