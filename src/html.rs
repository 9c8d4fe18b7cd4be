use vstd::prelude::*;
use vstd::string::*;
use crate::scanner::{
    has_no_delimiter, is_single_text, lemma_no_delimiter_stays_text, push_text, push_text_str, run_model, scan_text_into, views, Segment, SegmentView};
use pulldown_cmark::{CodeBlockKind, Event, Parser, Tag, TagEnd};

verus! {

/// The page up to the start of the article's body.
pub const PAGE_HEAD: &'static str = r#"<!doctype html>
<html lang="en-AU">

<head>
	<link rel="icon" href="data:image/gif;base64,R0lGODlhAQABAAAAACwAAAAAAQABAAA=">
        <link rel="stylesheet" href="https://cdnjs.cloudflare.com/ajax/libs/highlight.js/11.9.0/styles/default.min.css">
<script src="https://cdnjs.cloudflare.com/ajax/libs/highlight.js/11.9.0/highlight.min.js"></script>

<!-- and it's easy to individually load additional languages -->
<script src="https://cdnjs.cloudflare.com/ajax/libs/highlight.js/11.9.0/languages/go.min.js"></script>

<script>hljs.highlightAll();</script>
	<meta charset="utf-8" />
	<style>
		:root {
			font: 1.15rem -apple-system, BlinkMacSystemFont, avenir next, avenir, helvetica, helvetica neue, ubuntu, roboto, noto, segoe ui, arial, sans-serif
		}

		.typst-doc {
			vertical-align: middle;
		}

		body {
			max-width: 70ch;
			margin-left: auto;
			margin-right: auto;
		}

		header {
			padding-top: 1rem;
		}

		header li {
			float: right;
		}

		header li a,
		header li button {
			display: block;
			text-align: center;
			text-decoration: none;
			padding-top: 1rem;
			padding-bottom: 0.2rem;
			padding-left: 0.5rem;
		}

		ul {
			overflow: hidden;
			padding: 0;
			margin: 0;
		}

		.hr-list {
			margin-left: 0.5rem;
			margin-right: 0.5rem;
			border: 0;
			flex: 1 0 1rem;
		}

		body li {
			display: flex;
			padding-bottom: 0.2rem;
		}

		a {
			color: inherit;
		}

		.dark-mode {
			background-color: black;
			color: white;
                        fill: white;
		}
.math-inline{vertical-align: middle;overflow: visible} .math{overflow: visible; width: 100%} img{width:100%}
	</style>
	<script>
		function darkToggle() {
			var element = document.body;
			element.classList.toggle("dark-mode");
		}
	</script>
	<meta name="viewport" content="width=device-width" />
	<title>Home</title>
</head>

<body class="dark-mode">
	<header>
		<ul>
			<li style="float: left;"><a style="padding-left:0;" href="index.html"><b>Home</b></a>
			</li>
			<li><button onclick="darkToggle()"
					style="border:none;background-color:inherit; color: inherit; font-size: inherit; font: inherit;">💡</button>
			</li>
			<li><a href="about.html">About</a></li>
		</ul>
		<hr style="margin-bottom: 1.5rem">
	</header>
"#;

/// The end of the page.
pub const PAGE_TAIL: &'static str = "</body></html>";

pub const H1_OPEN: &'static str = "<h1 style=\"font-weight: 400;\">";
pub const H1_CLOSE: &'static str = "</h1>";
pub const P_OPEN: &'static str = "<p>";
pub const P_CLOSE: &'static str = "</p>";
pub const CODE_OPEN_HEAD: &'static str = "<pre><code class=\"lang-";
pub const CODE_OPEN_TAIL: &'static str = "\">";
pub const CODE_CLOSE: &'static str = "</code></pre>";
pub const IMG_HEAD: &'static str = "<img src=\"";
pub const IMG_TAIL: &'static str = "\">";

/// A block that the emitter has opened and not yet closed.
#[derive(PartialEq, Eq, Structural, Clone, Copy, Debug)]
pub enum OpenTag {
    H1,
    Code,
    P,
}

/// A markup event, as much of it as the emitter reads.
#[derive(Clone, Debug, PartialEq, Eq)]
pub enum MdEvent {
    /// Start of a heading of the given level (1 to 6).
    StartHeading(u8),
    StartParagraph,
    /// Start of a fenced code block with its language hint.
    StartFencedCode(String),
    /// Start of an image with its destination.
    StartImage(String),
    EndHeading(u8),
    EndParagraph,
    /// End of a code block, fenced or indented.
    EndCodeBlock,
    /// A run of text.
    Text(String),
    /// Any other event: the emitter passes over it.
    Other,
}

/// The mathematical value of an `MdEvent`.
pub enum MdEventView {
    StartHeading(u8),
    StartParagraph,
    StartFencedCode(Seq<char>),
    StartImage(Seq<char>),
    EndHeading(u8),
    EndParagraph,
    EndCodeBlock,
    Text(Seq<char>),
    Other,
}

impl View for MdEvent {
    type V = MdEventView;

    open spec fn view(&self) -> MdEventView {
        match self {
            MdEvent::StartHeading(l) => MdEventView::StartHeading(*l),
            MdEvent::StartParagraph => MdEventView::StartParagraph,
            MdEvent::StartFencedCode(l) => MdEventView::StartFencedCode(l@),
            MdEvent::StartImage(u) => MdEventView::StartImage(u@),
            MdEvent::EndHeading(l) => MdEventView::EndHeading(*l),
            MdEvent::EndParagraph => MdEventView::EndParagraph,
            MdEvent::EndCodeBlock => MdEventView::EndCodeBlock,
            MdEvent::Text(t) => MdEventView::Text(t@),
            MdEvent::Other => MdEventView::Other,
        }
    }
}

/// The views of a list of events.
pub open spec fn event_views(v: Seq<MdEvent>) -> Seq<MdEventView> {
    v.map_values(|e: MdEvent| e@)
}

/// The events of a markdown text, as the parser yields them.
pub uninterp spec fn markdown_events(text: Seq<char>) -> Seq<MdEventView>;

/// Relies on `pulldown_cmark::Parser::new` with no extensions and its
/// iterator: the event stream of the text, which depends on the text alone.
#[verifier::external_body]
fn parse_markdown(text: &str) -> (r: Vec<MdEvent>)
    ensures
        event_views(r@) == markdown_events(text@),
{
    Parser::new(text).map(|e| match e {
        Event::Start(Tag::Heading { level, .. }) => MdEvent::StartHeading(level as u8),
        Event::Start(Tag::Paragraph) => MdEvent::StartParagraph,
        Event::Start(Tag::CodeBlock(CodeBlockKind::Fenced(l))) => MdEvent::StartFencedCode(l.into_string()),
        Event::Start(Tag::Image { dest_url, .. }) => MdEvent::StartImage(dest_url.into_string()),
        Event::End(TagEnd::Heading(level)) => MdEvent::EndHeading(level as u8),
        Event::End(TagEnd::Paragraph) => MdEvent::EndParagraph,
        Event::End(TagEnd::CodeBlock) => MdEvent::EndCodeBlock,
        Event::Text(t) => MdEvent::Text(t.into_string()),
        _ => MdEvent::Other,
    }).collect()
}

/// An end event closed a block other than the one open last, or none was open.
#[derive(PartialEq, Eq, Structural, Clone, Copy, Debug)]
pub struct UnbalancedTag;

/// The emitter after one event: its stack of open blocks and its output, or
/// `None` where an end event does not match the block open last.
pub open spec fn event_model(stack: Seq<OpenTag>, out: Seq<SegmentView>, e: MdEventView) -> Option<
    (Seq<OpenTag>, Seq<SegmentView>),
> {
    match e {
        MdEventView::StartHeading(l) => if l == 1 {
            Some((stack.push(OpenTag::H1), push_text(out, H1_OPEN@)))
        } else {
            Some((stack, out))
        },
        MdEventView::StartParagraph => Some((stack.push(OpenTag::P), push_text(out, P_OPEN@))),
        MdEventView::StartFencedCode(lang) => Some(
            (stack.push(OpenTag::Code), push_text(out, CODE_OPEN_HEAD@ + lang + CODE_OPEN_TAIL@)),
        ),
        MdEventView::StartImage(url) => Some((stack, push_text(out, IMG_HEAD@ + url + IMG_TAIL@))),
        MdEventView::EndHeading(l) => if l != 1 {
            Some((stack, out))
        } else if stack.len() > 0 && stack.last() == OpenTag::H1 {
            Some((stack.drop_last(), push_text(out, H1_CLOSE@)))
        } else {
            None
        },
        MdEventView::EndParagraph => if stack.len() > 0 && stack.last() == OpenTag::P {
            Some((stack.drop_last(), push_text(out, P_CLOSE@)))
        } else {
            None
        },
        MdEventView::EndCodeBlock => if stack.len() > 0 && stack.last() == OpenTag::Code {
            Some((stack.drop_last(), push_text(out, CODE_CLOSE@)))
        } else {
            None
        },
        MdEventView::Text(t) => Some((stack, run_model(out, t).1)),
        MdEventView::Other => Some((stack, out)),
    }
}

/// The emitter after the events `es`, starting from `stack` and `out`.
pub open spec fn events_model(stack: Seq<OpenTag>, out: Seq<SegmentView>, es: Seq<MdEventView>) -> Option<
    (Seq<OpenTag>, Seq<SegmentView>),
>
    decreases es.len(),
{
    if es.len() == 0 {
        Some((stack, out))
    } else {
        match events_model(stack, out, es.drop_last()) {
            Some((st, o)) => event_model(st, o, es.last()),
            None => None,
        }
    }
}

/// The whole page for the events `es`: the page head, the article, the page
/// tail; `None` where the events are unbalanced.
pub open spec fn page_model(es: Seq<MdEventView>) -> Option<Seq<SegmentView>> {
    match events_model(Seq::empty(), seq![SegmentView::Text(PAGE_HEAD@)], es) {
        Some((_, o)) => Some(push_text(o, PAGE_TAIL@)),
        None => None,
    }
}

/// No text event among `es` holds a delimiter.
pub open spec fn has_no_math_text(es: Seq<MdEventView>) -> bool {
    forall|i: int| 0 <= i < es.len() && es[i] is Text ==> has_no_delimiter(es[i]->Text_0)
}

proof fn lemma_events_stay_text(stack: Seq<OpenTag>, out: Seq<SegmentView>, es: Seq<MdEventView>)
    requires
        is_single_text(out),
        has_no_math_text(es),
    ensures
        events_model(stack, out, es) matches Some((_, o)) ==> is_single_text(o),
    decreases es.len(),
{
    if es.len() > 0 {
        let init = es.drop_last();
        assert(has_no_math_text(init)) by {
            assert forall|i: int| 0 <= i < init.len() && init[i] is Text implies has_no_delimiter(
                init[i]->Text_0,
            ) by {
                assert(init[i] == es[i]);
            }
        }
        lemma_events_stay_text(stack, out, init);
        if let Some((st, o)) = events_model(stack, out, init) {
            if es.last() is Text {
                assert(es.last() == es[es.len() - 1]);
                lemma_no_delimiter_stays_text(o, es.last()->Text_0);
            }
        }
    }
}

/// A document whose text holds no delimiter becomes, when its events are
/// balanced, one piece of plain HTML: nothing is left to render or inject.
pub proof fn lemma_page_without_math(es: Seq<MdEventView>)
    requires
        has_no_math_text(es),
    ensures
        page_model(es) matches Some(o) ==> is_single_text(o),
{
    lemma_events_stay_text(Seq::empty(), seq![SegmentView::Text(PAGE_HEAD@)], es);
}

/// An end event for `t` finds `t` open last.
pub open spec fn closes_last(stack: Seq<OpenTag>, t: OpenTag) -> bool {
    stack.len() > 0 && stack.last() == t
}

/// Pops `t` when it is the block open last.
fn close_if_last(stack: &mut Vec<OpenTag>, t: OpenTag) -> (r: bool)
    ensures
        r == closes_last(old(stack)@, t),
        r ==> final(stack)@ == old(stack)@.drop_last(),
        !r ==> final(stack)@ == old(stack)@,
{
    let n = stack.len();
    if n > 0 && stack[n - 1] == t {
        stack.pop();
        true
    } else {
        false
    }
}

/// Applies one event to the stack of open blocks and the output.
pub fn apply_event(stack: &mut Vec<OpenTag>, out: &mut Vec<Segment>, e: &MdEvent) -> (r: Result<
    (),
    UnbalancedTag,
>)
    ensures
        match event_model(old(stack)@, views(old(out)@), e@) {
            Some((st, o)) => r is Ok && final(stack)@ == st && views(final(out)@) == o,
            None => r is Err && final(stack)@ == old(stack)@ && final(out)@ == old(out)@,
        },
{
    match e {
        MdEvent::StartHeading(l) => {
            if *l == 1 {
                stack.push(OpenTag::H1);
                push_text_str(out, H1_OPEN);
            }
            Ok(())
        },
        MdEvent::StartParagraph => {
            stack.push(OpenTag::P);
            push_text_str(out, P_OPEN);
            Ok(())
        },
        MdEvent::StartFencedCode(lang) => {
            stack.push(OpenTag::Code);
            let mut tag = String::from_str(CODE_OPEN_HEAD);
            tag.append(lang.as_str());
            tag.append(CODE_OPEN_TAIL);
            push_text_str(out, tag.as_str());
            Ok(())
        },
        MdEvent::StartImage(url) => {
            let mut tag = String::from_str(IMG_HEAD);
            tag.append(url.as_str());
            tag.append(IMG_TAIL);
            push_text_str(out, tag.as_str());
            Ok(())
        },
        MdEvent::EndHeading(l) => {
            if *l != 1 {
                Ok(())
            } else if close_if_last(stack, OpenTag::H1) {
                push_text_str(out, H1_CLOSE);
                Ok(())
            } else {
                Err(UnbalancedTag)
            }
        },
        MdEvent::EndParagraph => {
            if close_if_last(stack, OpenTag::P) {
                push_text_str(out, P_CLOSE);
                Ok(())
            } else {
                Err(UnbalancedTag)
            }
        },
        MdEvent::EndCodeBlock => {
            if close_if_last(stack, OpenTag::Code) {
                push_text_str(out, CODE_CLOSE);
                Ok(())
            } else {
                Err(UnbalancedTag)
            }
        },
        MdEvent::Text(t) => {
            scan_text_into(t.as_str(), out);
            Ok(())
        },
        MdEvent::Other => Ok(()),
    }
}

/// The page for a list of markup events: plain HTML with the math spans to
/// render in place, or `UnbalancedTag` exactly where the events are unbalanced.
pub fn render_events(events: &Vec<MdEvent>) -> (r: Result<Vec<Segment>, UnbalancedTag>)
    ensures
        match page_model(event_views(events@)) {
            Some(o) => r is Ok && views(r->Ok_0@) == o,
            None => r is Err,
        },
{
    let ghost es = event_views(events@);
    let mut stack: Vec<OpenTag> = Vec::new();
    let mut out: Vec<Segment> = Vec::new();
    out.push(Segment::Text(String::from_str(PAGE_HEAD)));
    proof {
        assert(views(out@) =~= seq![SegmentView::Text(PAGE_HEAD@)]);
        assert(es.subrange(0, 0) =~= Seq::<MdEventView>::empty());
    }
    let n = events.len();
    let mut i: usize = 0;
    while i < n
        invariant
            n == events.len(),
            es == event_views(events@),
            0 <= i <= n,
            events_model(Seq::empty(), seq![SegmentView::Text(PAGE_HEAD@)], es.subrange(0, i as int))
                == Some((stack@, views(out@))),
        decreases n - i,
    {
        let ghost prefix = es.subrange(0, i as int);
        proof {
            assert(es.subrange(0, i + 1).drop_last() =~= prefix);
            assert(es.subrange(0, i + 1).last() == events@[i as int]@);
        }
        match apply_event(&mut stack, &mut out, &events[i]) {
            Ok(()) => {},
            Err(e) => {
                proof {
                    lemma_unbalanced_stays(es, i as int + 1);
                }
                return Err(e);
            },
        }
        i = i + 1;
    }
    proof {
        assert(es.subrange(0, n as int) =~= es);
    }
    push_text_str(&mut out, PAGE_TAIL);
    Ok(out)
}

proof fn lemma_unbalanced_stays(es: Seq<MdEventView>, k: int)
    requires
        0 <= k <= es.len(),
        events_model(Seq::empty(), seq![SegmentView::Text(PAGE_HEAD@)], es.subrange(0, k)) is None,
    ensures
        events_model(Seq::empty(), seq![SegmentView::Text(PAGE_HEAD@)], es) is None,
    decreases es.len() - k,
{
    if k < es.len() {
        assert(es.subrange(0, k + 1).drop_last() =~= es.subrange(0, k));
        lemma_unbalanced_stays(es, k + 1);
    } else {
        assert(es.subrange(0, k) =~= es);
    }
}

/// The page for a markdown text, from the parser's events.
pub fn render_article(text: &str) -> (r: Result<Vec<Segment>, UnbalancedTag>)
    ensures
        match page_model(markdown_events(text@)) {
            Some(o) => r is Ok && views(r->Ok_0@) == o,
            None => r is Err,
        },
{
    let events = parse_markdown(text);
    render_events(&events)
}

} // verus!
