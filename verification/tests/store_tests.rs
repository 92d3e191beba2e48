use discovery_tracker::api::{
    diff_format_entries, get_pagination_params, take_page_with_more, Api, PaginationParams,
};
use discovery_tracker::change::{Change, ChangeSet};
use discovery_tracker::change_logger::{ChangeLogger, ChangeSummary, LogError, LoggedChange};
use discovery_tracker::classify::classify_tags;
use discovery_tracker::config::{default_format, ServiceConfig, TagMentionRoleId};
use discovery_tracker::document::DiscoveryDocument;
use discovery_tracker::fetch::{build_url, is_discovery_document};
use discovery_tracker::storage::Storage;
use discovery_tracker::value::ChangeValue;
use discovery_tracker::webhook::{build_description, build_mentions};

fn empty_document(revision: Option<&str>) -> DiscoveryDocument {
    DiscoveryDocument {
        description: None,
        title: None,
        discovery_version: None,
        revision: revision.map(|r| r.to_string()),
        owner_domain: None,
        base_url: None,
        documentation_link: None,
        schemas: None,
        resources: None,
    }
}

fn addition_at(path: &str) -> Change {
    Change {
        path: path.to_string(),
        value: Some(ChangeValue::Str("x".to_string())),
        old_value: None,
        new_value: None,
    }
}

fn change_set(service: &str, additions: Vec<Change>, deletions: Vec<Change>) -> ChangeSet {
    ChangeSet {
        service: service.to_string(),
        modifications: Vec::new(),
        additions,
        deletions,
    }
}

#[test]
fn logged_change_round_trip() {
    let mut logger = ChangeLogger::new("logs".to_string());
    let doc = empty_document(Some("20230101"));
    let cs = change_set("svc", vec![addition_at("title"), addition_at("baseUrl")], Vec::new());
    let logged = logger.log_changes_at(cs, &doc, 1000);

    assert_eq!(logged.revision, "20230101");
    assert_eq!(logged.timestamp, 1000);
    assert_eq!(logged.service, "svc");
    assert_eq!(logged.summary.additions, 2);
    assert_eq!(logged.summary.modifications, 0);
    assert_eq!(logged.summary.deletions, 0);
    assert_eq!(logged.additions.len(), 2);

    let found = logger.get_specific_change("svc", 1000).unwrap();
    assert_eq!(found.revision, logged.revision);
    assert_eq!(found.timestamp, logged.timestamp);
    assert_eq!(found.service, logged.service);
    assert_eq!(found.summary.additions, logged.summary.additions);
    assert_eq!(found.additions.len(), logged.additions.len());
    assert_eq!(found.additions[0].path, logged.additions[0].path);
}

#[test]
fn missing_revision_falls_back_to_unknown() {
    let mut logger = ChangeLogger::new("logs".to_string());
    let doc = empty_document(None);
    let logged = logger.log_changes_at(change_set("svc", Vec::new(), Vec::new()), &doc, 7);
    assert_eq!(logged.revision, "unknown");
}

#[test]
fn same_second_overwrites() {
    let mut logger = ChangeLogger::new("logs".to_string());
    let doc = empty_document(Some("r1"));
    logger.log_changes_at(change_set("svc", vec![addition_at("title")], Vec::new()), &doc, 5);
    let doc2 = empty_document(Some("r2"));
    logger.log_changes_at(change_set("svc", Vec::new(), Vec::new()), &doc2, 5);

    let all = logger.get_all_changes(0, 10);
    assert_eq!(all.len(), 1);
    assert_eq!(all[0].revision, "r2");
    assert_eq!(all[0].summary.additions, 0);
}

#[test]
fn listing_is_newest_first_and_pages_compose() {
    let mut logger = ChangeLogger::new("logs".to_string());
    let doc = empty_document(Some("r"));
    logger.log_changes_at(change_set("a", Vec::new(), Vec::new()), &doc, 100);
    logger.log_changes_at(change_set("b", Vec::new(), Vec::new()), &doc, 300);
    logger.log_changes_at(change_set("c", Vec::new(), Vec::new()), &doc, 200);

    let all = logger.get_all_changes(0, 10);
    let stamps: Vec<u64> = all.iter().map(|r| r.timestamp).collect();
    assert_eq!(stamps, vec![300, 200, 100]);

    let first = logger.get_all_changes(0, 2);
    let second = logger.get_all_changes(2, 2);
    assert_eq!(first.len(), 2);
    assert_eq!(second.len(), 1);
    let joined: Vec<u64> =
        first.iter().chain(second.iter()).map(|r| r.timestamp).collect();
    let whole: Vec<u64> = logger.get_all_changes(0, 4).iter().map(|r| r.timestamp).collect();
    assert_eq!(joined, whole);
    assert!(first.iter().all(|f| second
        .iter()
        .all(|s| !(f.service == s.service && f.timestamp == s.timestamp))));
}

#[test]
fn service_filter_matches_by_prefix() {
    let mut logger = ChangeLogger::new("logs".to_string());
    let doc = empty_document(Some("r"));
    logger.log_changes_at(change_set("foo", Vec::new(), Vec::new()), &doc, 10);
    logger.log_changes_at(change_set("foobar", Vec::new(), Vec::new()), &doc, 20);
    logger.log_changes_at(change_set("other", Vec::new(), Vec::new()), &doc, 30);

    let matched = logger.get_changes_for_service("foo", 0, 10);
    assert_eq!(matched.len(), 2);
    assert_eq!(matched[0].service, "foobar");
    assert_eq!(matched[1].service, "foo");
}

#[test]
fn specific_change_misses_are_not_found() {
    let logger = ChangeLogger::new("logs".to_string());
    let missing = logger.get_specific_change("svc", 42);
    assert!(matches!(missing, Err(LogError::NotFound)));
}

#[test]
fn log_changes_stamps_the_clock() {
    let mut logger = ChangeLogger::new("logs".to_string());
    let doc = empty_document(Some("r"));
    let before = empty_document(Some("q"));
    let logged = logger.log_changes(
        change_set("svc", vec![addition_at("title")], Vec::new()),
        &before,
        &doc,
    );
    assert_eq!(logged.summary.additions, 1);
    assert!(logger.get_specific_change("svc", logged.timestamp).is_ok());
}

#[test]
fn log_file_path_names_service_and_second() {
    let logger = ChangeLogger::new("logs".to_string());
    assert_eq!(logger.log_file_path("svc", 1234), "logs/svc-1234.json");
    assert_eq!(logger.log_file_path("svc", 0), "logs/svc-0.json");
}

#[test]
fn empty_offsets_and_limits() {
    let mut logger = ChangeLogger::new("logs".to_string());
    assert!(logger.get_all_changes(0, 10).is_empty());
    let doc = empty_document(Some("r"));
    logger.log_changes_at(change_set("svc", Vec::new(), Vec::new()), &doc, 1);
    assert!(logger.get_all_changes(0, 0).is_empty());
    assert!(logger.get_all_changes(5, 10).is_empty());
    assert!(logger.get_changes_for_service("svc", 1, 10).is_empty());
    assert_eq!(logger.get_all_changes(0, usize::MAX).len(), 1);
}

#[test]
fn largest_timestamp_names_a_file() {
    let logger = ChangeLogger::new("logs".to_string());
    assert_eq!(
        logger.log_file_path("svc", u64::MAX),
        "logs/svc-18446744073709551615.json"
    );
}

#[test]
fn snapshot_store_keeps_one_slot_per_service() {
    let mut storage = Storage::new("snapshots".to_string());
    assert!(storage.retrieve("svc").is_none());

    storage.store("svc", &empty_document(Some("r1")));
    assert_eq!(storage.retrieve("svc").unwrap().revision.as_deref(), Some("r1"));

    storage.store("svc", &empty_document(Some("r2")));
    assert_eq!(storage.retrieve("svc").unwrap().revision.as_deref(), Some("r2"));

    storage.store("other", &empty_document(Some("r3")));
    assert_eq!(storage.retrieve_all().len(), 2);
    assert_eq!(storage.get_path("svc"), "snapshots/svc.json");
}

#[test]
fn classifier_tags_method_changes() {
    let cs = change_set("svc", vec![addition_at("/resources/r/methods/m")], Vec::new());
    assert_eq!(classify_tags(&cs), vec!["new_method".to_string()]);

    let quiet = change_set("svc", vec![addition_at("/resources/r")], Vec::new());
    assert!(classify_tags(&quiet).is_empty());

    let removal = Change {
        path: "/resources/r/methods/m".to_string(),
        value: None,
        old_value: Some(ChangeValue::Str("x".to_string())),
        new_value: None,
    };
    let removed = change_set("svc", Vec::new(), vec![removal]);
    assert_eq!(classify_tags(&removed), vec!["removed_method".to_string()]);

    let bare = Change {
        path: "/resources/r/methods/m".to_string(),
        value: None,
        old_value: None,
        new_value: None,
    };
    let bare_removed = change_set("svc", Vec::new(), vec![bare]);
    assert!(classify_tags(&bare_removed).is_empty());
}

#[test]
fn pagination_params_default_and_cap() {
    assert_eq!(
        get_pagination_params(PaginationParams { offset: None, max_results: None }),
        (0, 50)
    );
    assert_eq!(
        get_pagination_params(PaginationParams { offset: Some(10), max_results: Some(100) }),
        (10, 50)
    );
    assert_eq!(
        get_pagination_params(PaginationParams { offset: Some(3), max_results: Some(5) }),
        (3, 5)
    );
}

#[test]
fn page_with_more_flag() {
    let mut logger = ChangeLogger::new("logs".to_string());
    let doc = empty_document(Some("r"));
    logger.log_changes_at(change_set("a", Vec::new(), Vec::new()), &doc, 1);
    logger.log_changes_at(change_set("b", Vec::new(), Vec::new()), &doc, 2);
    logger.log_changes_at(change_set("c", Vec::new(), Vec::new()), &doc, 3);

    let fetched = logger.get_all_changes(0, 3);
    let (page, has_more) = take_page_with_more(fetched, 2);
    assert!(has_more);
    assert_eq!(page.len(), 2);
    assert_eq!(page[0].timestamp, 3);

    let fetched = logger.get_all_changes(2, 2);
    let (page, has_more) = take_page_with_more(fetched, 1);
    assert!(!has_more);
    assert_eq!(page.len(), 1);
    assert_eq!(page[0].timestamp, 1);
}

#[test]
fn diff_format_orders_by_kind_then_path() {
    let record = LoggedChange {
        revision: "r".to_string(),
        timestamp: 9,
        service: "svc".to_string(),
        summary: ChangeSummary { additions: 2, modifications: 1, deletions: 1, tags: Vec::new() },
        modifications: vec![Change {
            path: "title".to_string(),
            value: None,
            old_value: Some(ChangeValue::Str("a".to_string())),
            new_value: Some(ChangeValue::Str("b".to_string())),
        }],
        additions: vec![addition_at("/schemas/B"), addition_at("/schemas/A")],
        deletions: vec![Change {
            path: "baseUrl".to_string(),
            value: None,
            old_value: Some(ChangeValue::Str("u".to_string())),
            new_value: None,
        }],
    };
    let entries = diff_format_entries(&record);
    let shape: Vec<(String, String)> =
        entries.iter().map(|e| (e.change_type.clone(), e.path.clone())).collect();
    assert_eq!(
        shape,
        vec![
            ("+".to_string(), "/schemas/A".to_string()),
            ("+".to_string(), "/schemas/B".to_string()),
            ("-".to_string(), "baseUrl".to_string()),
            ("M".to_string(), "title".to_string()),
        ]
    );
    assert!(matches!(&entries[0].new_value, Some(ChangeValue::Str(s)) if s == "x"));
    assert!(entries[0].old_value.is_none());
    assert!(matches!(&entries[2].old_value, Some(ChangeValue::Str(s)) if s == "u"));
}

#[test]
fn api_facade_holds_the_stores() {
    let api = Api::new(Storage::new("s".to_string()), ChangeLogger::new("l".to_string()));
    assert!(api.storage.retrieve("svc").is_none());
    assert_eq!(api.uptime_at(api.start_time + 5), 5);
    assert_eq!(api.uptime_at(0), 0);
}

#[test]
fn url_of_a_configured_service() {
    let plain = ServiceConfig {
        service: "example.googleapis.com".to_string(),
        key: None,
        spatula: None,
        visibility_label: None,
        format: default_format(),
    };
    assert_eq!(build_url(&plain), "https://example.googleapis.com/$discovery/rest");

    let labelled = ServiceConfig {
        service: "example.googleapis.com".to_string(),
        key: None,
        spatula: None,
        visibility_label: Some("preview".to_string()),
        format: "rest".to_string(),
    };
    assert_eq!(
        build_url(&labelled),
        "https://example.googleapis.com/$discovery/rest?label=preview"
    );
}

#[test]
fn discovery_document_sniffing() {
    assert!(is_discovery_document("{\"discoveryVersion\": \"v1\"}"));
    assert!(!is_discovery_document("{\"kind\": \"other\"}"));
    assert!(!is_discovery_document(""));
}

#[test]
fn mention_and_description_text() {
    let roles = vec![
        TagMentionRoleId { tag: "new_method".to_string(), role_id: "1".to_string() },
        TagMentionRoleId { tag: "removed_method".to_string(), role_id: "2".to_string() },
    ];
    let tags = vec!["new_method".to_string()];
    assert_eq!(build_mentions(&roles, &tags), "<@&1>");
    let both = vec!["new_method".to_string(), "removed_method".to_string()];
    assert_eq!(build_mentions(&roles, &both), "<@&1> <@&2>");
    assert_eq!(build_mentions(&roles, &Vec::new()), "");

    let summary =
        ChangeSummary { additions: 2, modifications: 0, deletions: 12, tags: Vec::new() };
    assert_eq!(build_description(&summary), "**+2** additions\n**-12** removed");
    let none = ChangeSummary { additions: 0, modifications: 0, deletions: 0, tags: Vec::new() };
    assert_eq!(build_description(&none), "");
}
