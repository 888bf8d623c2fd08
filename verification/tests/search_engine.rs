//! Tests of the glob translation, the shared entry map, and the
//! persistent search index round trips.

use nexus_core::entry_map::EntryMap;
use nexus_core::entry::FileEntry;
use nexus_core::search::{glob_to_regex, SearchEngine, SearchQuery, SearchType};

fn plain_entry(path: &str, name: &str, ext: Option<&str>, size: u64, is_dir: bool) -> FileEntry {
    FileEntry {
        path: path.to_string(),
        name: name.to_string(),
        extension: ext.map(|e| e.to_string()),
        size,
        created: None,
        modified: None,
        accessed: None,
        is_dir,
        is_hidden: false,
        is_system: false,
        content_hash: None,
        parent: String::new(),
        drive: 'C',
    }
}

fn query(text: &str, kind: SearchType) -> SearchQuery {
    let mut q = SearchQuery::default();
    q.query = text.to_string();
    q.search_type = kind;
    q
}

#[test]
fn test_glob_to_regex() {
    assert_eq!(glob_to_regex("*.txt"), "^.*\\.txt$");
    assert_eq!(glob_to_regex("file?.txt"), "^file.\\.txt$");
    assert_eq!(glob_to_regex("test"), "^test$");
}

#[test]
fn test_glob_to_regex_escapes() {
    assert_eq!(glob_to_regex("a+b"), "^a\\+b$");
    assert_eq!(glob_to_regex("[x]"), "^\\[x\\]$");
}

#[test]
fn test_entry_map() {
    let mut map = EntryMap::new();
    assert_eq!(map.len(), 0);
    map.insert(plain_entry("C:\\a", "a", None, 1, false));
    map.insert(plain_entry("C:\\b", "b", None, 2, false));
    map.insert(plain_entry("C:\\a", "a", None, 9, false));
    assert_eq!(map.len(), 2);
    let got = map.get(&"C:\\a".to_string()).unwrap();
    assert_eq!(got.size, 9);
    assert!(map.get(&"C:\\missing".to_string()).is_none());
    let values = map.values();
    assert_eq!(values.len(), 2);
    map.clear();
    assert_eq!(map.len(), 0);
}

#[test]
fn test_index_then_exact_search() {
    let dir = tempfile::tempdir().unwrap();
    let path = dir.path().to_str().unwrap().to_string();
    let mut engine = SearchEngine::new(&path).unwrap();
    let batch = vec![
        plain_entry("C:\\docs\\report", "report", None, 10, false),
        plain_entry("C:\\docs\\letter", "letter", None, 20, false),
    ];
    engine.index_entries(&batch).unwrap();
    let results = engine.search(&query("report", SearchType::Exact)).unwrap();
    assert!(results.len() >= 1);
    assert!(results.iter().any(|r| r.entry.path == "C:\\docs\\report"));
    assert_eq!(engine.stats().0, 2);
}

#[test]
fn test_clear_empties_index() {
    let dir = tempfile::tempdir().unwrap();
    let path = dir.path().to_str().unwrap().to_string();
    let mut engine = SearchEngine::new(&path).unwrap();
    engine
        .index_entries(&vec![plain_entry("C:\\x\\one", "one", None, 1, false)])
        .unwrap();
    assert_eq!(engine.stats().0, 1);
    engine.clear().unwrap();
    assert_eq!(engine.stats().0, 0);
    let results = engine.search(&query("one", SearchType::Exact)).unwrap();
    assert!(results.is_empty());
    let semantic = engine.search(&query("one", SearchType::Semantic)).unwrap();
    assert!(semantic.is_empty());
}

#[test]
fn test_search_filters() {
    let dir = tempfile::tempdir().unwrap();
    let path = dir.path().to_str().unwrap().to_string();
    let mut engine = SearchEngine::new(&path).unwrap();
    let batch = vec![
        plain_entry("C:\\data\\small.log", "small.log", Some("log"), 10, false),
        plain_entry("C:\\data\\big.log", "big.log", Some("log"), 5000, false),
    ];
    engine.index_entries(&batch).unwrap();
    let mut q = query("log", SearchType::Semantic);
    q.min_size = Some(100);
    let results = engine.search(&q).unwrap();
    assert!(results.iter().all(|r| r.entry.size >= 100));
    let mut tq = query("log", SearchType::Semantic);
    tq.file_types = Some(vec!["LOG".to_string()]);
    let typed = engine.search(&tq).unwrap();
    assert!(typed.len() >= 1);
    let mut dq = query("log", SearchType::Semantic);
    dq.drives = Some(vec!['Z']);
    let wrong_drive = engine.search(&dq).unwrap();
    assert!(wrong_drive.is_empty());
}

#[test]
fn test_fuzzy_search() {
    let dir = tempfile::tempdir().unwrap();
    let path = dir.path().to_str().unwrap().to_string();
    let mut engine = SearchEngine::new(&path).unwrap();
    engine
        .index_entries(&vec![plain_entry("C:\\n\\notes", "notes", None, 1, false)])
        .unwrap();
    let results = engine.search(&query("motes", SearchType::Fuzzy)).unwrap();
    assert!(results.iter().any(|r| r.entry.name == "notes"));
}

#[test]
fn test_index_persists_across_reopen() {
    let dir = tempfile::tempdir().unwrap();
    let path = dir.path().to_str().unwrap().to_string();
    {
        let mut engine = SearchEngine::new(&path).unwrap();
        engine
            .index_entries(&vec![plain_entry("C:\\p\\kept", "kept", None, 1, false)])
            .unwrap();
    }
    let engine = SearchEngine::new(&path).unwrap();
    assert_eq!(engine.stats().0, 1);
}
