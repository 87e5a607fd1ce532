use sqld_core::config_store::{DatabaseConfig, DatabaseConfigStore};
use sqld_core::error::Error;

fn config(reads: bool, writes: bool, reason: Option<&str>) -> DatabaseConfig {
    DatabaseConfig {
        block_reads: reads,
        block_writes: writes,
        block_reason: reason.map(|s| s.to_string()),
    }
}

fn assert_round_trip(c: DatabaseConfig) {
    let doc = c.to_json();
    let back = DatabaseConfig::from_json(&doc).unwrap();
    assert_eq!(back.block_reads, c.block_reads);
    assert_eq!(back.block_writes, c.block_writes);
    assert_eq!(back.block_reason, c.block_reason);
}

#[test]
fn default_config_blocks_nothing() {
    let c = DatabaseConfig::default();
    assert!(!c.block_reads);
    assert!(!c.block_writes);
    assert!(c.block_reason.is_none());
}

#[test]
fn config_document_round_trips() {
    assert_round_trip(config(false, false, None));
    assert_round_trip(config(true, false, None));
    assert_round_trip(config(false, true, Some("maintenance")));
    assert_round_trip(config(true, true, Some("")));
}

#[test]
fn config_round_trips_with_awkward_reasons() {
    assert_round_trip(config(false, true, Some("say \"no\" now")));
    assert_round_trip(config(false, false, Some("a\\b\tc\nd")));
    assert_round_trip(config(true, false, Some("caf\u{e9} \u{1F600} nul:\u{0}")));
}

#[test]
fn written_document_is_compact_json() {
    let doc = config(false, true, Some("maintenance")).to_json();
    assert_eq!(
        doc,
        "{\"block_reads\":false,\"block_writes\":true,\"block_reason\":\"maintenance\"}"
    );
    let none = config(false, false, None).to_json();
    assert_eq!(none, "{\"block_reads\":false,\"block_writes\":false,\"block_reason\":null}");
}

#[test]
fn reader_accepts_pretty_output_and_any_member_order() {
    let pretty = "{\n  \"block_writes\": true,\n  \"block_reason\": \"maintenance\",\n  \"block_reads\": false\n}\n";
    let c = DatabaseConfig::from_json(pretty).unwrap();
    assert!(!c.block_reads);
    assert!(c.block_writes);
    assert_eq!(c.block_reason.as_deref(), Some("maintenance"));
}

#[test]
fn reader_ignores_a_leading_unknown_member() {
    // the contracted forward-compatibility family: an unknown
    // string-valued member in front of the known ones
    let doc = "{\"future\":\"x\",\"block_reads\":true,\"block_writes\":false,\"block_reason\":null}";
    let c = DatabaseConfig::from_json(doc).unwrap();
    assert!(c.block_reads && !c.block_writes && c.block_reason.is_none());
}

#[test]
fn reader_ignores_unknown_members() {
    let doc = "{\"block_reads\":true,\"future\":{\"nested\":[1,2,\"x\"]},\"n\":-1.5e3,\"flag\":null}";
    let c = DatabaseConfig::from_json(doc).unwrap();
    assert!(c.block_reads);
    assert!(!c.block_writes);
    assert!(c.block_reason.is_none());
}

#[test]
fn reader_defaults_missing_members() {
    let c = DatabaseConfig::from_json("{}").unwrap();
    assert!(!c.block_reads && !c.block_writes && c.block_reason.is_none());
    let c2 = DatabaseConfig::from_json(" { \"block_writes\" : true } ").unwrap();
    assert!(c2.block_writes);
}

#[test]
fn reader_accepts_documents_of_older_writers() {
    // documents holding only some of the members, as a writer unaware of
    // the newer ones would have produced them
    let only_reads = DatabaseConfig::from_json("{\"block_reads\":true}").unwrap();
    assert!(only_reads.block_reads && !only_reads.block_writes);
    assert!(only_reads.block_reason.is_none());

    let no_writes =
        DatabaseConfig::from_json("{\"block_reads\":false,\"block_reason\":\"why\"}").unwrap();
    assert!(!no_writes.block_reads && !no_writes.block_writes);
    assert_eq!(no_writes.block_reason.as_deref(), Some("why"));

    let no_reads =
        DatabaseConfig::from_json("{\"block_writes\":true,\"block_reason\":null}").unwrap();
    assert!(!no_reads.block_reads && no_reads.block_writes);
    assert!(no_reads.block_reason.is_none());

    let only_reason = DatabaseConfig::from_json("{\"block_reason\":\"x\"}").unwrap();
    assert_eq!(only_reason.block_reason.as_deref(), Some("x"));
}

#[test]
fn reader_decodes_escapes() {
    let c = DatabaseConfig::from_json("{\"block_reason\":\"a\\n\\t\\\"b\\\\c\\u0041\"}").unwrap();
    assert_eq!(c.block_reason.as_deref(), Some("a\n\t\"b\\cA"));
}

#[test]
fn malformed_documents_are_rejected() {
    for bad in [
        "",
        "[]",
        "{",
        "{\"block_reads\":tru}",
        "{\"block_reads\":1}",
        "{\"block_writes\":\"yes\"}",
        "{\"block_reads\":false",
        "{\"block_reads\":false,}",
        "{\"block_reads\":false}{",
        "{\"block_reads\":false,\"block_reads\":true}",
        "{\"block_reason\":42}",
        "{\"block_reason\":\"unterminated}",
        "{\"block_reads\" false}",
    ] {
        assert!(
            matches!(DatabaseConfig::from_json(bad), Err(Error::InvalidConfig)),
            "accepted: {}",
            bad
        );
    }
}

#[test]
fn store_load_round_trip() {
    // what `store` persists, a later `load` reads back
    let store = DatabaseConfigStore::load("/data/db", None).unwrap();
    assert_eq!(store.config_path(), "/data/db/config.json");
    assert_eq!(store.tmp_config_path(), "/data/db/config.json~");
    // a missing file yields the default config
    let initial = store.get();
    assert!(!initial.block_reads && !initial.block_writes);

    let new = config(false, true, Some("maintenance"));
    let staged = store.store_document(&new);
    let reloaded = DatabaseConfigStore::load("/data/db", Some(&staged)).unwrap();
    let seen = reloaded.get();
    assert!(!seen.block_reads);
    assert!(seen.block_writes);
    assert_eq!(seen.block_reason.as_deref(), Some("maintenance"));
}

#[test]
fn snapshot_changes_only_on_commit() {
    let mut store = DatabaseConfigStore::new_test();
    assert!(!store.get().block_writes);
    let new = config(false, true, Some("maintenance"));
    // staging alone leaves the snapshot untouched, as a failed write would
    let _doc = store.store_document(&new);
    assert!(!store.get().block_writes);
    store.commit_store(new);
    assert!(store.get().block_writes);
    assert_eq!(store.get().block_reason.as_deref(), Some("maintenance"));
}

#[test]
fn load_rejects_malformed_documents() {
    let r = DatabaseConfigStore::load("/data/db", Some("not json"));
    assert!(matches!(r, Err(Error::InvalidConfig)));
}
