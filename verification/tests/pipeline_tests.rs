//! End-to-end behaviour of the resolution and delivery pipeline on
//! concrete inputs.

use shortcut_sync::batch::{pair_responses, plan_image_query, ToDownload};
use shortcut_sync::cache::{collect_outcomes, SearchCache, SearchOutcome};
use shortcut_sync::gate::{ConcurrencyGate, CONCURRENT_REQUESTS};
use shortcut_sync::images::{all_image_types, ImageType};
use shortcut_sync::need::shortcuts_needing_search;
use shortcut_sync::pipeline::{credential_present, flatten_downloads};
use shortcut_sync::shortcut::Shortcut;

fn sc(app_id: u32, app_name: &str) -> Shortcut {
    Shortcut {
        app_id,
        app_name: app_name.to_string(),
    }
}

#[test]
fn canonical_file_names() {
    assert_eq!(ImageType::Hero.file_name(123), "123_hero.png");
    assert_eq!(ImageType::Grid.file_name(123), "123p.png");
    assert_eq!(ImageType::Logo.file_name(123), "123_logo.png");
}

#[test]
fn file_names_edge_ids() {
    assert_eq!(ImageType::Hero.file_name(0), "0_hero.png");
    assert_eq!(ImageType::Grid.file_name(u32::MAX), "4294967295p.png");
    assert_eq!(ImageType::Logo.file_name(10), "10_logo.png");
}

#[test]
fn image_kinds_walk_in_batcher_order() {
    assert_eq!(
        all_image_types(),
        vec![ImageType::Logo, ImageType::Hero, ImageType::Grid]
    );
}

#[test]
fn fully_covered_shortcut_is_excluded() {
    let shortcuts = vec![sc(123, "Covered"), sc(7, "Partial")];
    let known = vec![
        "123_hero.png".to_string(),
        "123p.png".to_string(),
        "123_logo.png".to_string(),
        "7_hero.png".to_string(),
    ];
    let needing = shortcuts_needing_search(&shortcuts, &known);
    assert_eq!(needing.len(), 1);
    assert_eq!(needing[0].app_id, 7);
}

#[test]
fn empty_name_is_excluded_regardless_of_known_images() {
    let shortcuts = vec![sc(10, ""), sc(11, "Named")];
    let known: Vec<String> = Vec::new();
    let needing = shortcuts_needing_search(&shortcuts, &known);
    assert_eq!(needing.len(), 1);
    assert_eq!(needing[0].app_id, 11);
}

#[test]
fn covered_library_issues_no_search_calls() {
    let shortcuts = vec![sc(1, "A"), sc(2, "")];
    let known = vec![
        "1_hero.png".to_string(),
        "1p.png".to_string(),
        "1_logo.png".to_string(),
    ];
    // The orchestrator issues one provider call per entry of this plan.
    let needing = shortcuts_needing_search(&shortcuts, &known);
    assert!(needing.is_empty());
}

#[test]
fn cache_round_trip_resolves_without_new_calls() {
    let mut cache = SearchCache::new();
    cache.record(10, 111);
    cache.record(20, 222);
    cache.record(10, 333);
    let saved = cache.to_entries();
    let reloaded = SearchCache::from_entries(&saved);
    // Lookups are served from the table alone; no provider is involved.
    assert_eq!(reloaded.lookup(10), Some(333));
    assert_eq!(reloaded.lookup(20), Some(222));
    assert_eq!(reloaded.lookup(30), None);
}

#[test]
fn outcomes_only_store_successes() {
    let outcomes = vec![
        (1, SearchOutcome::Found(100)),
        (2, SearchOutcome::NotFound),
        (3, SearchOutcome::Failed),
    ];
    let resolved = collect_outcomes(&outcomes);
    assert_eq!(resolved.lookup(1), Some(100));
    assert_eq!(resolved.lookup(2), None);
    assert_eq!(resolved.lookup(3), None);
}

#[test]
fn missing_credential_makes_run_a_no_op() {
    assert!(!credential_present(&None));
    assert!(credential_present(&Some("some-key".to_string())));
}

#[test]
fn one_user_two_shortcuts_scenario() {
    // app_id 10 "GameA" with no known images; app_id 20 with an empty name.
    let shortcuts = vec![sc(10, "GameA"), sc(20, "")];
    let known: Vec<String> = Vec::new();

    let needing = shortcuts_needing_search(&shortcuts, &known);
    // Exactly one search call is issued, for app_id 10.
    assert_eq!(needing.len(), 1);
    assert_eq!(needing[0].app_id, 10);

    let outcomes: Vec<(u32, SearchOutcome)> = needing
        .iter()
        .map(|s| (s.app_id, SearchOutcome::Found(555)))
        .collect();
    let resolved = collect_outcomes(&outcomes);

    let mut lists: Vec<Vec<ToDownload>> = Vec::new();
    for t in [ImageType::Logo, ImageType::Hero, ImageType::Grid] {
        let (needed, ids) = plan_image_query(&shortcuts, &resolved, &known, t);
        assert_eq!(ids.len(), needed.len());
        let responses: Vec<Option<String>> = ids
            .iter()
            .map(|id| Some(format!("https://example.invalid/{id}")))
            .collect();
        lists.push(pair_responses(&needed, &responses, t, "/data/config/grid"));
    }
    let all = flatten_downloads(&lists);
    // The download phase attempts at most 3 files, all for app_id 10.
    assert_eq!(all.len(), 3);
    let paths: Vec<&str> = all.iter().map(|d| d.path.as_str()).collect();
    assert!(paths.contains(&"/data/config/grid/10_logo.png"));
    assert!(paths.contains(&"/data/config/grid/10_hero.png"));
    assert!(paths.contains(&"/data/config/grid/10p.png"));
    for d in &all {
        assert_eq!(d.url, "https://example.invalid/555");
    }
}

#[test]
fn one_failure_among_five_searches_is_isolated() {
    let shortcuts = vec![
        sc(1, "A"),
        sc(2, "B"),
        sc(3, "C"),
        sc(4, "D"),
        sc(5, "E"),
    ];
    let known: Vec<String> = Vec::new();
    let needing = shortcuts_needing_search(&shortcuts, &known);
    assert_eq!(needing.len(), 5);

    // Five concurrent searches complete in some arbitrary order; the one
    // for app_id 3 fails.
    let outcomes = vec![
        (4, SearchOutcome::Found(40)),
        (1, SearchOutcome::Found(10)),
        (3, SearchOutcome::Failed),
        (5, SearchOutcome::Found(50)),
        (2, SearchOutcome::Found(20)),
    ];
    let resolved = collect_outcomes(&outcomes);

    let (needed, ids) = plan_image_query(&shortcuts, &resolved, &known, ImageType::Hero);
    // The failed search contributes nothing and aborts nobody.
    assert_eq!(needed.len(), 4);
    let needed_ids: Vec<u32> = needed.iter().map(|s| s.app_id).collect();
    assert_eq!(needed_ids, vec![1, 2, 4, 5]);
    assert_eq!(ids, vec![10, 20, 40, 50]);

    let responses: Vec<Option<String>> = ids
        .iter()
        .map(|id| Some(format!("u{id}")))
        .collect();
    let downloads = pair_responses(&needed, &responses, ImageType::Hero, "g");
    assert_eq!(downloads.len(), 4);
    assert_eq!(downloads[0].path, "g/1_hero.png");
    assert_eq!(downloads[0].url, "u10");
    assert_eq!(downloads[3].path, "g/5_hero.png");
    assert_eq!(downloads[3].url, "u50");
}

#[test]
fn failed_response_entry_consumes_its_slot() {
    // Positional pairing: a failed response entry consumes its paired
    // request entry, so a later shortcut never receives an earlier one's
    // image.
    let needed = vec![sc(1, "A"), sc(2, "B"), sc(3, "C")];
    let responses = vec![
        Some("first".to_string()),
        None,
        Some("third".to_string()),
    ];
    let downloads = pair_responses(&needed, &responses, ImageType::Grid, "g");
    assert_eq!(downloads.len(), 2);
    assert_eq!(downloads[0].path, "g/1p.png");
    assert_eq!(downloads[0].url, "first");
    assert_eq!(downloads[1].path, "g/3p.png");
    assert_eq!(downloads[1].url, "third");
}

#[test]
fn pairing_stops_at_the_shorter_list() {
    let needed = vec![sc(1, "A"), sc(2, "B"), sc(3, "C")];
    let responses = vec![Some("only".to_string())];
    let downloads = pair_responses(&needed, &responses, ImageType::Logo, "g");
    assert_eq!(downloads.len(), 1);
    assert_eq!(downloads[0].path, "g/1_logo.png");

    let extra = vec![
        Some("a".to_string()),
        Some("b".to_string()),
        Some("c".to_string()),
    ];
    let one = vec![sc(9, "Z")];
    let downloads = pair_responses(&one, &extra, ImageType::Logo, "g");
    assert_eq!(downloads.len(), 1);
    assert_eq!(downloads[0].path, "g/9_logo.png");
    assert_eq!(downloads[0].url, "a");
}

#[test]
fn gate_never_exceeds_its_width() {
    let mut gate = ConcurrencyGate::new(CONCURRENT_REQUESTS);
    assert_eq!(gate.limit(), 10);
    let mut max_seen = 0;
    let mut admitted = 0;
    // 25 tasks contend; every admission is counted, every finish releases.
    for task in 0..25 {
        if !gate.try_acquire() {
            // Gate full: a running task must finish first.
            assert_eq!(gate.in_flight(), gate.limit());
            gate.release();
            assert!(gate.try_acquire());
        }
        admitted += 1;
        if gate.in_flight() > max_seen {
            max_seen = gate.in_flight();
        }
        assert!(gate.in_flight() <= gate.limit());
        // Tasks 0..9 linger; later ones finish immediately.
        if task >= 10 {
            gate.release();
        }
    }
    assert_eq!(admitted, 25);
    assert_eq!(max_seen, 10);
}

#[test]
fn flatten_keeps_user_order() {
    let lists = vec![
        vec![
            ToDownload {
                path: "p1".to_string(),
                url: "u1".to_string(),
            },
            ToDownload {
                path: "p2".to_string(),
                url: "u2".to_string(),
            },
        ],
        Vec::new(),
        vec![ToDownload {
            path: "p3".to_string(),
            url: "u3".to_string(),
        }],
    ];
    let all = flatten_downloads(&lists);
    let paths: Vec<&str> = all.iter().map(|d| d.path.as_str()).collect();
    assert_eq!(paths, vec!["p1", "p2", "p3"]);
}
