use crawltext::asset::Record;
use crawltext::driver::Cursor;
use crawltext::driver::RecordEvent;
use crawltext::driver::RecordOutcome;
use crawltext::driver::RecordStep;
use crawltext::driver::process_entry;
use crawltext::driver::process_entry_step;
use crawltext::dom::DomNode;
use crawltext::dom::NodeData;
use crawltext::extract::FetchOutcome;
use crawltext::segment::BOS_NODE_STAT;
use crawltext::segment::EOS_NODE_STAT;
use crawltext::segment::MorphemeNode;
use crawltext::segment::tokenize;

fn word(surface: &str, length: usize) -> MorphemeNode {
    MorphemeNode { stat: 0, surface: surface.to_string(), length }
}

fn sentinel(stat: u8) -> MorphemeNode {
    MorphemeNode { stat, surface: String::new(), length: 0 }
}

fn record(url: &str) -> Record {
    Record { url: url.to_string(), id: "1".to_string() }
}

fn joined(nodes: &Vec<MorphemeNode>) -> String {
    let mut out = String::new();
    tokenize(nodes, &mut out);
    out
}

#[test]
fn tokenize_drops_sentinels_and_joins() {
    let nodes = vec![
        sentinel(BOS_NODE_STAT),
        word("Hello", 5),
        word("World", 5),
        sentinel(EOS_NODE_STAT),
    ];
    assert_eq!(joined(&nodes), " Hello World");
}

#[test]
fn tokenize_without_sentinels_is_unchanged() {
    let with = vec![word("a", 1), sentinel(BOS_NODE_STAT), word("b", 1), sentinel(EOS_NODE_STAT)];
    let without = vec![word("a", 1), word("b", 1)];
    assert_eq!(joined(&with), joined(&without));
}

#[test]
fn tokenize_respects_reported_length() {
    // The surface buffer runs past the token; only the first `length`
    // characters are emitted.
    let nodes = vec![word("Worldly remainder", 5)];
    assert_eq!(joined(&nodes), " World");
}

#[test]
fn tokenize_of_empty_stream_is_empty() {
    assert_eq!(joined(&vec![]), "");
}

#[test]
fn tokenize_appends_to_existing_output() {
    let mut out = String::from("head");
    tokenize(&vec![word("tail", 4)], &mut out);
    assert_eq!(out, "head tail");
}

#[test]
fn asset_name_strips_scheme_and_separators() {
    assert_eq!(record("http://a/b").asset_file_name(), "assets/a_b.txt");
    assert_eq!(
        record("https://example.com/x/y").asset_file_name(),
        "assets/example.com_x_y.txt"
    );
}

#[test]
fn asset_name_is_deterministic() {
    let r = record("http://example.com/page");
    assert_eq!(r.asset_file_name(), r.asset_file_name());
}

#[test]
fn asset_name_collides_across_schemes() {
    // The documented collision policy: the two schemes map to one asset.
    assert_eq!(
        record("http://a/b").asset_file_name(),
        record("https://a/b").asset_file_name()
    );
}

#[test]
fn asset_name_without_scheme_is_kept() {
    assert_eq!(record("plain/name").asset_file_name(), "assets/plain_name.txt");
    assert_eq!(record("ftp").asset_file_name(), "assets/ftp.txt");
    assert_eq!(record("").asset_file_name(), "assets/.txt");
}

#[test]
fn pagination_visits_three_pages_for_23_records() {
    let total: i64 = 23;
    let per_page: i64 = 10;
    let mut cursor = Cursor::new(total, per_page);
    let mut pages_visited: Vec<i64> = Vec::new();
    let mut processed: i64 = 0;
    while !cursor.done() {
        pages_visited.push(cursor.page);
        let remaining = total - cursor.page * per_page;
        let returned = if remaining < per_page { remaining } else { per_page };
        processed += returned;
        cursor.advance(returned);
    }
    assert_eq!(pages_visited, vec![0, 1, 2]);
    assert_eq!(processed, 23);
    assert!(cursor.done());
}

#[test]
fn pagination_stops_on_short_final_page() {
    // The collection shrank while crawling: a page returns fewer items
    // than requested and the cursor still reaches the end.
    let mut cursor = Cursor::new(15, 10);
    cursor.advance(10);
    assert!(!cursor.done());
    cursor.advance(2);
    assert!(!cursor.done());
    cursor.advance(0);
    assert!(cursor.done());
}

fn simple_tree(content: &str) -> DomNode {
    DomNode {
        data: NodeData::Document,
        children: vec![DomNode {
            data: NodeData::Element { name: "body".to_string() },
            children: vec![DomNode {
                data: NodeData::Text { contents: content.to_string() },
                children: vec![],
            }],
        }],
    }
}

#[test]
fn record_pipeline_runs_to_created() {
    let rec = record("http://site/page");
    let step = process_entry(&rec);
    let path = match &step {
        RecordStep::CheckAsset { path, url } => {
            assert_eq!(path, "assets/site_page.txt");
            assert_eq!(url, "http://site/page");
            path.clone()
        },
        _ => panic!("expected a CheckAsset step"),
    };
    let step = process_entry_step(step, RecordEvent::AssetChecked { exists: false });
    assert!(matches!(&step, RecordStep::FetchPage { .. }));
    let outcome = FetchOutcome::Response { success: true, dom: simple_tree("Hello World") };
    let step = process_entry_step(step, RecordEvent::PageFetched { outcome });
    match &step {
        RecordStep::SegmentText { path: p, text } => {
            assert_eq!(p, &path);
            assert_eq!(text, "Hello World");
        },
        _ => panic!("expected a SegmentText step"),
    }
    let nodes = vec![
        sentinel(BOS_NODE_STAT),
        word("Hello", 5),
        word("World", 5),
        sentinel(EOS_NODE_STAT),
    ];
    let step = process_entry_step(step, RecordEvent::TextSegmented { nodes });
    match &step {
        RecordStep::Persist { path: p, content } => {
            assert_eq!(p, &path);
            assert_eq!(content, " Hello World");
        },
        _ => panic!("expected a Persist step"),
    }
    let step = process_entry_step(step, RecordEvent::ContentWritten { ok: true });
    assert!(matches!(step, RecordStep::Done { outcome: RecordOutcome::Created }));
}

#[test]
fn record_pipeline_skips_existing_asset() {
    // The second crawl over an unchanged store: every asset exists, every
    // record ends as Skipped, and no fetch step is ever produced.
    let records = vec![record("http://a/1"), record("http://a/2"), record("http://a/3")];
    let mut fetches = 0;
    for rec in &records {
        let step = process_entry(rec);
        let step = process_entry_step(step, RecordEvent::AssetChecked { exists: true });
        if matches!(&step, RecordStep::FetchPage { .. }) {
            fetches += 1;
        }
        assert!(matches!(step, RecordStep::Done { outcome: RecordOutcome::Skipped }));
    }
    assert_eq!(fetches, 0);
}

#[test]
fn record_pipeline_reports_fetch_failures() {
    let step = process_entry(&record("http://down/x"));
    let step = process_entry_step(step, RecordEvent::AssetChecked { exists: false });
    let step = process_entry_step(step, RecordEvent::PageFetched {
        outcome: FetchOutcome::TransportFailed,
    });
    assert!(matches!(
        step,
        RecordStep::Done {
            outcome: RecordOutcome::Failed { error: crawltext::extract::ExtractError::Transport },
        }
    ));

    let step = process_entry(&record("http://gone/x"));
    let step = process_entry_step(step, RecordEvent::AssetChecked { exists: false });
    let step = process_entry_step(step, RecordEvent::PageFetched {
        outcome: FetchOutcome::Response { success: false, dom: simple_tree("") },
    });
    assert!(matches!(
        step,
        RecordStep::Done {
            outcome: RecordOutcome::Failed { error: crawltext::extract::ExtractError::NotFound },
        }
    ));
}

#[test]
fn record_pipeline_reports_write_failure() {
    let step = process_entry(&record("http://site/w"));
    let step = process_entry_step(step, RecordEvent::AssetChecked { exists: false });
    let step = process_entry_step(step, RecordEvent::PageFetched {
        outcome: FetchOutcome::Response { success: true, dom: simple_tree("x") },
    });
    let step = process_entry_step(step, RecordEvent::TextSegmented { nodes: vec![word("x", 1)] });
    let step = process_entry_step(step, RecordEvent::ContentWritten { ok: false });
    assert!(matches!(step, RecordStep::Done { outcome: RecordOutcome::WriteFailed }));
}
