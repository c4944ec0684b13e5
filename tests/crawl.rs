use confluence_crawl::crawl::{Action, Crawl, Phase};
use confluence_crawl::model::{
    Attachment, AttachmentLink, Content, FetchError, Link, Page, Space, WebuiLink,
};
use confluence_crawl::site::Confluence;

fn content(id: &str, key: &str, title: &str) -> Content {
    Content {
        id: id.to_string(),
        space: Space { id: 7, key: key.to_string() },
        title: title.to_string(),
        links: WebuiLink { webui: format!("/display/{}", title) },
    }
}

fn attachment(id: &str, title: &str) -> Attachment {
    Attachment {
        id: id.to_string(),
        title: title.to_string(),
        links: AttachmentLink { download: format!("/download/{}", id) },
    }
}

fn page<T>(results: Vec<T>, next: Option<&str>) -> Page<T> {
    Page {
        results,
        links: Link { next: next.map(|n| n.to_string()), base: "https://w.org".to_string() },
    }
}

fn crawl(media: &[&str]) -> Crawl {
    let site = Confluence::new("https://w.org", "rest/api");
    Crawl::new(site, media.iter().map(|m| m.to_string()).collect(), 2)
}

fn fetch_url(c: &Crawl) -> String {
    match c.action() {
        Action::FetchContents(u) => u,
        Action::FetchAttachments(u) => u,
        Action::Finished => panic!("finished"),
        Action::Failed => panic!("failed"),
    }
}

fn line(key: &str, title: &str, cid: &str, aid: &str, atitle: &str) -> String {
    format!(
        "\"{}/{}/{}\" https://w.org/download/{} https://w.org/rest/api/content/{}/child/attachment/{}/data",
        key, title, atitle, aid, cid, aid
    )
}

#[test]
fn crawl_starts_with_first_content_page() {
    let c = crawl(&["video/mp4"]);
    assert!(c.phase() == Phase::Contents);
    match c.action() {
        Action::FetchContents(u) => assert_eq!(
            u,
            "https://w.org/rest/api/content?type=page&expand=space&limit=2&status=current&start=0"
        ),
        _ => panic!("expected a content request"),
    }
}

#[test]
fn single_item_end_to_end() {
    let site = Confluence::new("https://wiki.example.org", "rest/api");
    let mut c = Crawl::new(site, vec!["video/mp4".to_string()], 50);
    c.on_contents(page(vec![content("123", "ONAP", "Home")], None));
    match c.action() {
        Action::FetchAttachments(u) => assert_eq!(
            u,
            "https://wiki.example.org/rest/api/content/123/child/attachment?limit=50&mediaType=video/mp4"
        ),
        _ => panic!("expected an attachment request"),
    }
    let a = Attachment {
        id: "456".to_string(),
        title: "demo.mp4".to_string(),
        links: AttachmentLink { download: "/download/456".to_string() },
    };
    let lines = c.on_attachments(page(vec![a], None));
    assert_eq!(
        lines,
        vec!["\"ONAP/Home/demo.mp4\" https://wiki.example.org/download/456 https://wiki.example.org/rest/api/content/123/child/attachment/456/data".to_string()]
    );
    assert!(c.phase() == Phase::Finished);
    assert!(matches!(c.action(), Action::Finished));
}

#[test]
fn output_grouped_by_content_then_media_type() {
    let mut c = crawl(&["image/png", "video/mp4"]);
    c.on_contents(page(vec![content("1", "S", "C1"), content("2", "S", "C2")], None));
    let mut out: Vec<String> = Vec::new();

    assert_eq!(fetch_url(&c), "https://w.org/rest/api/content/1/child/attachment?limit=2&mediaType=image/png");
    out.extend(c.on_attachments(page(vec![attachment("11", "a.png"), attachment("12", "b.png")], Some("/p2"))));
    assert_eq!(fetch_url(&c), "https://w.org/p2");
    out.extend(c.on_attachments(page(vec![attachment("13", "c.png")], None)));

    assert_eq!(fetch_url(&c), "https://w.org/rest/api/content/1/child/attachment?limit=2&mediaType=video/mp4");
    out.extend(c.on_attachments(page(vec![attachment("14", "d.mp4")], None)));

    assert_eq!(fetch_url(&c), "https://w.org/rest/api/content/2/child/attachment?limit=2&mediaType=image/png");
    out.extend(c.on_attachments(page(vec![attachment("21", "e.png")], None)));

    assert_eq!(fetch_url(&c), "https://w.org/rest/api/content/2/child/attachment?limit=2&mediaType=video/mp4");
    out.extend(c.on_attachments(page(vec![attachment("22", "f.mp4"), attachment("23", "g.mp4")], None)));

    assert!(c.phase() == Phase::Finished);
    assert_eq!(
        out,
        vec![
            line("S", "C1", "1", "11", "a.png"),
            line("S", "C1", "1", "12", "b.png"),
            line("S", "C1", "1", "13", "c.png"),
            line("S", "C1", "1", "14", "d.mp4"),
            line("S", "C2", "2", "21", "e.png"),
            line("S", "C2", "2", "22", "f.mp4"),
            line("S", "C2", "2", "23", "g.mp4"),
        ]
    );
}

#[test]
fn lines_come_only_when_walk_ends() {
    let mut c = crawl(&["video/mp4"]);
    c.on_contents(page(vec![content("5", "K", "T")], None));
    let first = c.on_attachments(page(vec![attachment("51", "x.mp4")], Some("/next")));
    assert!(first.is_empty());
    let empty = c.on_attachments(page(Vec::new(), Some("/next2")));
    assert!(empty.is_empty());
    assert_eq!(fetch_url(&c), "https://w.org/next2");
    let last = c.on_attachments(page(vec![attachment("52", "y.mp4")], None));
    assert_eq!(last, vec![line("K", "T", "5", "51", "x.mp4"), line("K", "T", "5", "52", "y.mp4")]);
}

#[test]
fn failure_on_third_attachment_page_aborts() {
    let mut c = crawl(&["video/mp4"]);
    c.on_contents(page(vec![content("1", "S", "C1"), content("2", "S", "C2")], Some("/rest/api/content?start=2")));
    c.on_attachments(page(vec![attachment("11", "a.mp4")], Some("/att?start=1")));
    c.on_attachments(page(vec![attachment("12", "b.mp4")], Some("/att?start=2")));
    assert_eq!(fetch_url(&c), "https://w.org/att?start=2");
    c.on_failure(FetchError::Http(500, "boom".to_string()));
    assert!(c.phase() == Phase::Failed);
    assert!(matches!(c.action(), Action::Failed));
    match c.error() {
        Some(e) => {
            assert_eq!(e.url, "https://w.org/att?start=2");
            assert!(matches!(&e.cause, FetchError::Http(500, body) if body == "boom"));
        }
        None => panic!("no error recorded"),
    }
    let later = c.on_attachments(page(vec![attachment("13", "c.mp4")], None));
    assert!(later.is_empty());
    c.on_contents(page(vec![content("3", "S", "C3")], None));
    assert!(c.phase() == Phase::Failed);
}

#[test]
fn failure_of_content_page_names_its_url() {
    let mut c = crawl(&["video/mp4"]);
    c.on_failure(FetchError::Transport("refused".to_string()));
    assert!(c.phase() == Phase::Failed);
    let e = c.error().as_ref().unwrap();
    assert_eq!(e.url, "https://w.org/rest/api/content?type=page&expand=space&limit=2&status=current&start=0");
    assert!(matches!(&e.cause, FetchError::Transport(d) if d == "refused"));
}

#[test]
fn decode_failure_is_recorded() {
    let mut c = crawl(&["video/mp4"]);
    c.on_contents(page(vec![content("1", "S", "C1")], None));
    c.on_failure(FetchError::Decode("missing field".to_string()));
    let e = c.error().as_ref().unwrap();
    assert_eq!(e.url, "https://w.org/rest/api/content/1/child/attachment?limit=2&mediaType=video/mp4");
    assert!(matches!(&e.cause, FetchError::Decode(d) if d == "missing field"));
}

#[test]
fn content_pages_follow_cursor() {
    let mut c = crawl(&["video/mp4"]);
    c.on_contents(page(vec![content("1", "S", "C1")], Some("/rest/api/content?start=1")));
    let l1 = c.on_attachments(page(vec![attachment("11", "a.mp4")], None));
    assert_eq!(l1, vec![line("S", "C1", "1", "11", "a.mp4")]);
    assert_eq!(fetch_url(&c), "https://w.org/rest/api/content?start=1");
    assert!(c.phase() == Phase::Contents);
    c.on_contents(page(vec![content("2", "S", "C2")], None));
    let l2 = c.on_attachments(page(vec![attachment("21", "b.mp4")], None));
    assert_eq!(l2, vec![line("S", "C2", "2", "21", "b.mp4")]);
    assert!(c.phase() == Phase::Finished);
}

#[test]
fn empty_content_page_with_cursor_continues() {
    let mut c = crawl(&["video/mp4"]);
    c.on_contents(page(Vec::new(), Some("/rest/api/content?start=2")));
    assert!(c.phase() == Phase::Contents);
    assert_eq!(fetch_url(&c), "https://w.org/rest/api/content?start=2");
    c.on_contents(page(Vec::new(), None));
    assert!(c.phase() == Phase::Finished);
}

#[test]
fn no_media_types_requests_no_attachments() {
    let mut c = crawl(&[]);
    c.on_contents(page(vec![content("1", "S", "C1")], None));
    assert!(c.phase() == Phase::Finished);
}

#[test]
fn page_of_wrong_kind_is_ignored() {
    let mut c = crawl(&["video/mp4"]);
    let lines = c.on_attachments(page(vec![attachment("11", "a.mp4")], None));
    assert!(lines.is_empty());
    assert!(c.phase() == Phase::Contents);
    c.on_contents(page(vec![content("1", "S", "C1")], None));
    c.on_contents(page(vec![content("2", "S", "C2")], None));
    assert_eq!(fetch_url(&c), "https://w.org/rest/api/content/1/child/attachment?limit=2&mediaType=video/mp4");
}
