use nanorp::markdown::{render_markdown, sanitize, MdEvent};

#[test]
fn renders_basic_markdown() {
    let html = render_markdown("**bold** and *italic* and `code`");
    assert!(html.contains("<strong>bold</strong>"));
    assert!(html.contains("<em>italic</em>"));
    assert!(html.contains("<code>code</code>"));
}

#[test]
fn renders_lists_and_headings() {
    let html = render_markdown("# Title\n\n- one\n- two");
    assert!(html.contains("<h1>Title</h1>"));
    assert!(html.contains("<li>one</li>"));
}

#[test]
fn escapes_raw_html() {
    let html = render_markdown("hello <script>alert(1)</script> world");
    assert!(!html.contains("<script>"));
    assert!(html.contains("&lt;script&gt;"));
}

#[test]
fn escapes_html_blocks() {
    let html = render_markdown("<img src=x onerror=alert(1)>");
    assert!(!html.contains("<img"));
}

#[test]
fn single_newlines_become_line_breaks() {
    let html = render_markdown("line one\nline two");
    assert!(html.contains("<br"));
}

#[test]
fn renders_code_blocks() {
    let html = render_markdown("```rust\nfn main() {}\n```");
    assert!(html.contains("<pre>"));
    assert!(html.contains("fn main() {}"));
}

#[test]
fn tables_and_strikethrough_are_on() {
    let html = render_markdown("| a | b |\n|---|---|\n| 1 | 2 |\n\n~~gone~~");
    assert!(html.contains("<table>"));
    assert!(html.contains("<del>gone</del>"));
}

#[test]
fn sanitizing_turns_html_into_text_and_keeps_order() {
    let out = sanitize(vec![
        MdEvent::Html("<b>".to_string()),
        MdEvent::SoftBreak,
        MdEvent::Text("t".to_string()),
        MdEvent::InlineHtml("<i>".to_string()),
        MdEvent::HardBreak,
    ]);
    let shown: Vec<String> = out
        .iter()
        .map(|e| match e {
            MdEvent::Text(s) => format!("text:{s}"),
            MdEvent::Html(s) => format!("html:{s}"),
            MdEvent::InlineHtml(s) => format!("inline:{s}"),
            MdEvent::SoftBreak => "soft".to_string(),
            MdEvent::HardBreak => "hard".to_string(),
            MdEvent::Other(_) => "other".to_string(),
        })
        .collect();
    assert_eq!(shown, vec!["text:<b>", "hard", "text:t", "text:<i>", "hard"]);
}
