use castr::pages::{
    index_context, page_reply, stats_context, template_of, Page, PageReply,
};
use castr::types::StreamMetadata;
use tera::{Context, Tera};

fn meta(key: &str, viewers: usize) -> StreamMetadata {
    StreamMetadata {
        stream_key: key.to_string(),
        title: String::new(),
        broadcaster: String::new(),
        category: String::new(),
        description: String::new(),
        is_live: true,
        source_type: String::new(),
        started_at: None,
        viewer_count: viewers,
        bitrate_kbps: 0,
        fps: 0,
        resolution: String::new(),
    }
}

fn templates() -> Tera {
    let mut t = Tera::default();
    t.add_raw_template(
        "index.html",
        "{{ title }}|{{ disable_registration }}|{{ active_stream_count }}|{{ total_viewers }}",
    )
    .unwrap();
    t.add_raw_template("partials/stats_cards.html", "{{ active_stream_count }}/{{ total_viewers }}")
        .unwrap();
    t
}

fn make_page(templates: &Tera, page: Page, context: &Context) -> PageReply {
    page_reply(templates.render(template_of(page), context).map_err(|e| e.to_string()))
}

#[test]
fn index_page_is_filled() {
    let list = vec![meta("a", 2), meta("b", 5)];
    let context = index_context(&list, true).unwrap();
    let reply = make_page(&templates(), Page::Index, &context);
    assert_eq!(reply.status, 200);
    assert_eq!(reply.body, "Castr \u{2014} RTMP Live Webcam Streaming Hub|true|2|7");
}

#[test]
fn stats_page_is_filled() {
    let context = stats_context(&vec![meta("a", 40)]).unwrap();
    let reply = make_page(&templates(), Page::StatsCards, &context);
    assert_eq!((reply.status, reply.body.as_str()), (200, "1/40"));
}

#[test]
fn pages_of_countless_viewers_have_no_values() {
    let list = vec![meta("a", usize::MAX), meta("b", 1)];
    assert!(stats_context(&list).is_none());
    assert!(index_context(&list, false).is_none());
}

#[test]
fn page_without_a_template_is_an_error() {
    let reply = make_page(&templates(), Page::StreamCards, &Context::new());
    assert_eq!(reply.status, 500);
    assert!(reply.body.starts_with("Template error: "));
    assert!(reply.body.contains("partials/stream_cards.html"));
}

#[test]
fn pages_have_their_templates() {
    assert_eq!(template_of(Page::Index), "index.html");
    assert_eq!(template_of(Page::StreamCards), "partials/stream_cards.html");
    assert_eq!(template_of(Page::StatsCards), "partials/stats_cards.html");
    let reply = page_reply(Err("gone".to_string()));
    assert_eq!((reply.status, reply.body.as_str()), (500, "Template error: gone"));
    let reply = page_reply(Ok("<p>".to_string()));
    assert_eq!((reply.status, reply.body.as_str()), (200, "<p>"));
}
