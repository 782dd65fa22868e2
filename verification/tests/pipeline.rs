use archivist::dispatch::{
    artifact_path, capture_args, classify, failure_reply_text, handle_url_event, invalid_reply,
    is_admin, site_build_args, updated_reply, CaptureEvent, Classification, Span, TextMessage,
};
use archivist::extract::extract_item;
use archivist::index_file::{render_item, ArchiveIndex};
use archivist::model::Item;
use archivist::namegen::{contains_name, fresh_name};

fn lines(texts: &[&str]) -> Vec<String> {
    texts.iter().map(|t| t.to_string()).collect()
}

#[test]
fn extracts_title_from_literal_line() {
    let item = extract_item(
        &lines(&["<meta property=\"og:title\" content=\"My Page\" />"]),
        &"x.html".to_string(),
    );
    assert_eq!(item.title, "My Page");
    assert_eq!(item.owner, "");
    assert_eq!(item.author, "");
    assert_eq!(item.description, None);
    assert_eq!(item.date, None);
    assert_eq!(item.path, "x.html");
}

#[test]
fn extracts_author_from_literal_line() {
    let item = extract_item(
        &lines(&["<meta property=\"og:article:author\" content=\"Jane Doe\" />"]),
        &"x.html".to_string(),
    );
    assert_eq!(item.author, "Jane Doe");
}

#[test]
fn extracts_description_from_literal_line() {
    let item = extract_item(
        &lines(&["<meta property=\"og:description\" content=\" A summary. \" />"]),
        &"x.html".to_string(),
    );
    assert_eq!(item.description, Some("A summary.".to_string()));
}

#[test]
fn extracts_owner_from_line_after_marker() {
    let item = extract_item(
        &lines(&["<div class=\"js_name\">", "Acme Corp<span>...</span>"]),
        &"x.html".to_string(),
    );
    assert_eq!(item.owner, "Acme Corp");
}

#[test]
fn extracts_date_from_line_before_marker() {
    let prev = "<div content=\"2024-01-01T00:00:00\" data-x=\"y\">\"2024-01-01\"</div>";
    let marker = "<script>getElementById(\"publish_time\")</script>";
    let item = extract_item(&lines(&[prev, marker]), &"x.html".to_string());
    assert_eq!(item.date, Some("2024-01-01".to_string()));
}

#[test]
fn short_marker_line_degrades_to_empty_field() {
    let item = extract_item(
        &lines(&["<meta property=\"og:title\" />"]),
        &"x.html".to_string(),
    );
    assert_eq!(item.title, "");
}

#[test]
fn full_document_extraction() {
    let doc = lines(&[
        "<html>",
        "<meta property=\"og:title\" content=\"Title Here\" />",
        "<meta property=\"og:description\" content=\"Desc here\" />",
        "<meta property=\"og:article:author\" content=\"An Author\" />",
        "<span class=\"js_name\">",
        "  Owner Name<i>x</i>",
        "<b content=\"2023-05-06T00:00:00\" x=\"y\">\"2023-05-06\" tail</b>",
        "<script>var t = getElementById(\"publish_time\");</script>",
        "</html>",
    ]);
    let item = extract_item(&doc, &"art.html".to_string());
    assert_eq!(item.title, "Title Here");
    assert_eq!(item.description, Some("Desc here".to_string()));
    assert_eq!(item.author, "An Author");
    assert_eq!(item.owner, "Owner Name");
    assert_eq!(item.date, Some("2023-05-06".to_string()));
    assert_eq!(item.path, "art.html");
}

#[test]
fn renders_record_block_exactly() {
    let item = Item {
        owner: "own".to_string(),
        author: "aut".to_string(),
        title: "tit".to_string(),
        description: Some("des".to_string()),
        date: None,
        path: "p.html".to_string(),
    };
    let block = render_item(&item);
    assert_eq!(
        block,
        "\n- owner: 'own'\n  author: 'aut'\n  title: 'tit'\n  description: 'des'\n  date: ''\n  path: 'p.html'"
    );
}

#[test]
fn index_append_grows_and_preserves_prefix() {
    let mut idx = ArchiveIndex::from_content("- old\n".to_string());
    let before = idx.content.clone();
    let item = Item {
        owner: String::new(),
        author: String::new(),
        title: "t".to_string(),
        description: None,
        date: None,
        path: "a.html".to_string(),
    };
    idx.append_record(&item);
    assert!(idx.content.len() >= before.len());
    assert!(idx.content.starts_with(before.as_str()));
    let once = idx.content.clone();
    idx.append_record(&item);
    assert!(idx.content.len() >= once.len());
    assert!(idx.content.starts_with(once.as_str()));
    assert_eq!(
        idx.content,
        "- old\n\n- owner: ''\n  author: ''\n  title: 't'\n  description: ''\n  date: ''\n  path: 'a.html'\
         \n- owner: ''\n  author: ''\n  title: 't'\n  description: ''\n  date: ''\n  path: 'a.html'"
    );
}

#[test]
fn fresh_name_avoids_existing_set() {
    let existing: Vec<String> = Vec::new();
    let name = fresh_name(&existing);
    assert_eq!(name.chars().count(), 15);
    assert!(name.ends_with(".html"));

    let mut taken: Vec<String> = Vec::new();
    for i in 0..200 {
        taken.push(format!("name{}.html", i));
    }
    let name = fresh_name(&taken);
    assert!(!contains_name(&taken, &name));
    assert!(!taken.contains(&name));
    assert!(name.ends_with(".html"));
}

#[test]
fn fresh_names_are_random() {
    let existing: Vec<String> = Vec::new();
    let a = fresh_name(&existing);
    let b = fresh_name(&existing);
    // Two draws of 10 symbols from a 64-symbol alphabet collide with
    // negligible probability.
    assert_ne!(a, b);
}

#[test]
fn unauthorized_sender_is_ignored() {
    let msg = TextMessage {
        sender: 42,
        text: "/update".to_string(),
        spans: Vec::new(),
    };
    let c = classify(&vec![1, 2, 3], &msg);
    assert!(matches!(c, Classification::Ignored));
    assert!(!is_admin(&vec![1, 2, 3], 42));
}

#[test]
fn update_command_routes_to_site_builder() {
    let msg = TextMessage {
        sender: 1,
        text: "/update".to_string(),
        spans: Vec::new(),
    };
    let c = classify(&vec![1], &msg);
    assert!(matches!(c, Classification::RunSiteBuild));

    let msg = TextMessage {
        sender: 1,
        text: "/update site now".to_string(),
        spans: Vec::new(),
    };
    let c = classify(&vec![1], &msg);
    assert!(matches!(c, Classification::RunSiteBuild));
}

#[test]
fn bogus_command_is_invalid() {
    let msg = TextMessage {
        sender: 1,
        text: "/bogus".to_string(),
        spans: Vec::new(),
    };
    let c = classify(&vec![1], &msg);
    assert!(matches!(c, Classification::InvalidCommand));
}

#[test]
fn url_spans_are_captured_in_order() {
    let text = "see http://a.example and http://b.example".to_string();
    let spans = vec![
        Span { is_url: true, offset: 4, length: 16 },
        Span { is_url: false, offset: 21, length: 3 },
        Span { is_url: true, offset: 25, length: 16 },
    ];
    let msg = TextMessage { sender: 7, text, spans };
    let c = classify(&vec![7], &msg);
    match c {
        Classification::CaptureUrls(urls) => {
            assert_eq!(urls, vec!["http://a.example".to_string(), "http://b.example".to_string()]);
        }
        _ => panic!("expected capture classification"),
    }
}

#[test]
fn mixed_batch_one_error_one_record() {
    let url1 = "http://a.example".to_string();
    let url2 = "http://b.example".to_string();
    let failed = CaptureEvent::SpawnFailed("spawn failed".to_string());
    let captured = CaptureEvent::Captured(lines(&[
        "<meta property=\"og:title\" content=\"B\" />",
    ]));

    let out1 = handle_url_event(&url1, &"out/n1.html".to_string(), &failed);
    let out2 = handle_url_event(&url2, &"out/n2.html".to_string(), &captured);

    assert_eq!(
        out1.reply,
        "Internal error spawn failed when trying to archive http://a.example."
    );
    assert!(out1.record.is_none());
    assert_eq!(out2.reply, "Url archived.");
    let rec = out2.record.as_ref().expect("success must yield a record");
    assert_eq!(rec.title, "B");
    assert_eq!(rec.path, "n2.html");

    let mut idx = ArchiveIndex::from_content(String::new());
    let mut records = 0;
    for out in [&out1, &out2] {
        if let Some(ref item) = out.record {
            idx.append_record(item);
            records += 1;
        }
    }
    assert_eq!(records, 1);
    assert_eq!(
        idx.content,
        "\n- owner: ''\n  author: ''\n  title: 'B'\n  description: ''\n  date: ''\n  path: 'n2.html'"
    );
}

#[test]
fn failure_reply_names_url_and_detail() {
    let r = failure_reply_text(&"http://x".to_string(), &"Os { code: 2 }".to_string());
    assert_eq!(r, "Internal error Os { code: 2 } when trying to archive http://x.");
}

#[test]
fn fixed_replies() {
    assert_eq!(updated_reply(), "Page updated.");
    assert_eq!(invalid_reply(), "Invalid command.");
}

#[test]
fn builds_tool_arguments() {
    let args = capture_args(&"http://x".to_string(), &"out/a.html".to_string());
    assert_eq!(args, vec!["http://x", "-s", "-o", "out/a.html"]);
    let args = site_build_args(&"public".to_string());
    assert_eq!(args, vec!["-s", "hugo", "-d", "../public"]);
    assert_eq!(artifact_path(&"out".to_string(), &"a.html".to_string()), "out/a.html");
}
