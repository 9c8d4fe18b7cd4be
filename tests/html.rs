use mathdown::html::{render_article, render_events, MdEvent, UnbalancedTag, PAGE_HEAD, PAGE_TAIL};
use mathdown::scanner::{MathSpan, Segment};

fn page(body: &str) -> Vec<Segment> {
    vec![Segment::Text(format!("{PAGE_HEAD}{body}{PAGE_TAIL}"))]
}

#[test]
fn document_without_math_is_retagged() {
    let events = vec![
        MdEvent::StartHeading(1),
        MdEvent::Text("Title".to_string()),
        MdEvent::EndHeading(1),
        MdEvent::StartParagraph,
        MdEvent::Text("Some text.".to_string()),
        MdEvent::EndParagraph,
        MdEvent::StartFencedCode("rust".to_string()),
        MdEvent::Text("fn main() {}\n".to_string()),
        MdEvent::EndCodeBlock,
    ];
    assert_eq!(
        render_events(&events),
        Ok(page(
            "<h1 style=\"font-weight: 400;\">Title</h1><p>Some text.</p>\
             <pre><code class=\"lang-rust\">fn main() {}\n</code></pre>"
        ))
    );
}

#[test]
fn parsed_document_without_math() {
    assert_eq!(
        render_article("# Title\n\nSome text.\n\n```go\nx := 1\n```\n"),
        Ok(page(
            "<h1 style=\"font-weight: 400;\">Title</h1><p>Some text.</p>\
             <pre><code class=\"lang-go\">x := 1\n</code></pre>"
        ))
    );
}

#[test]
fn math_in_paragraph_is_spliced() {
    assert_eq!(
        render_article("Let $x$ be.\n"),
        Ok(vec![
            Segment::Text(format!("{PAGE_HEAD}<p>Let ")),
            Segment::Math(MathSpan { source: "$x$".to_string(), is_inline: true }),
            Segment::Text(format!(" be.</p>{PAGE_TAIL}")),
        ])
    );
}

#[test]
fn other_heading_levels_emit_no_tags() {
    assert_eq!(render_article("## Sub\n"), Ok(page("Sub")));
}

#[test]
fn image_tag() {
    let events = vec![
        MdEvent::StartImage("a.png".to_string()),
        MdEvent::Text("alt".to_string()),
        MdEvent::Other,
    ];
    assert_eq!(render_events(&events), Ok(page("<img src=\"a.png\">alt")));
}

#[test]
fn unmatched_end_is_refused() {
    assert_eq!(render_events(&vec![MdEvent::EndParagraph]), Err(UnbalancedTag));
    let events = vec![MdEvent::StartHeading(1), MdEvent::EndParagraph];
    assert_eq!(render_events(&events), Err(UnbalancedTag));
}

#[test]
fn indented_code_block_is_refused() {
    assert_eq!(render_article("    code\n"), Err(UnbalancedTag));
}
