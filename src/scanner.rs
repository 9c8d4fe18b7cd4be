use vstd::prelude::*;
use vstd::string::*;
use crate::text::chars_of;

verus! {

/// The character that opens and closes a math span.
pub const DELIMITER: char = '$';

/// The character that makes the next character literal.
pub const ESCAPE: char = '\\';

/// Whitespace, as the display-mode rule reads it: the Unicode White_Space
/// property, the characters that `char::is_whitespace` accepts.
pub open spec fn is_space(c: char) -> bool {
    let u = c as u32;
    (0x09 <= u && u <= 0x0D) || u == 0x20 || u == 0x85 || u == 0xA0 || u == 0x1680 || (0x2000
        <= u && u <= 0x200A) || u == 0x2028 || u == 0x2029 || u == 0x202F || u == 0x205F || u
        == 0x3000
}

/// Whether `c` is whitespace.
pub fn is_space_char(c: char) -> (r: bool)
    ensures
        r == is_space(c),
{
    let u = c as u32;
    (0x09 <= u && u <= 0x0D) || u == 0x20 || u == 0x85 || u == 0xA0 || u == 0x1680 || (0x2000
        <= u && u <= 0x200A) || u == 0x2028 || u == 0x2029 || u == 0x202F || u == 0x205F || u
        == 0x3000
}

/// A closed math span: its exact source, both delimiters included, and
/// whether it is displayed inline.
#[derive(Clone, Debug, PartialEq, Eq)]
pub struct MathSpan {
    pub source: String,
    pub is_inline: bool,
}

/// One piece of scanner output: plain text, or a math span to render.
#[derive(Clone, Debug, PartialEq, Eq)]
pub enum Segment {
    Text(String),
    Math(MathSpan),
}

/// The mathematical value of a `Segment`.
pub enum SegmentView {
    Text(Seq<char>),
    Math(Seq<char>, bool),
}

impl View for Segment {
    type V = SegmentView;

    open spec fn view(&self) -> SegmentView {
        match self {
            Segment::Text(t) => SegmentView::Text(t@),
            Segment::Math(m) => SegmentView::Math(m.source@, m.is_inline),
        }
    }
}

/// The views of a list of segments.
pub open spec fn views(v: Seq<Segment>) -> Seq<SegmentView> {
    v.map_values(|s: Segment| s@)
}

/// Appends one plain character, extending the last text segment when there is one.
pub open spec fn push_plain(out: Seq<SegmentView>, c: char) -> Seq<SegmentView> {
    if out.len() > 0 && out.last() is Text {
        out.drop_last().push(SegmentView::Text(out.last()->Text_0.push(c)))
    } else {
        out.push(SegmentView::Text(seq![c]))
    }
}

/// What one step of the scanner does with the output.
#[derive(Clone, Debug, PartialEq, Eq)]
pub enum Action {
    Nothing,
    Emit(char),
    Render(MathSpan),
}

/// The mathematical value of an `Action`.
pub enum ActionView {
    Nothing,
    Emit(char),
    Render(Seq<char>, bool),
}

impl View for Action {
    type V = ActionView;

    open spec fn view(&self) -> ActionView {
        match self {
            Action::Nothing => ActionView::Nothing,
            Action::Emit(c) => ActionView::Emit(*c),
            Action::Render(m) => ActionView::Render(m.source@, m.is_inline),
        }
    }
}

/// The output after one scanner action.
pub open spec fn apply(out: Seq<SegmentView>, a: ActionView) -> Seq<SegmentView> {
    match a {
        ActionView::Nothing => out,
        ActionView::Emit(c) => push_plain(out, c),
        ActionView::Render(src, inline) => out.push(SegmentView::Math(src, inline)),
    }
}

/// The scanner's state while it reads one text run.
pub struct ScanState {
    pub in_math: bool,
    pub escaped: bool,
    pub just_opened: bool,
    pub saw_space_after_open: bool,
    pub last_was_space: bool,
    pub buffer: String,
}

/// The mathematical value of a `ScanState`.
pub struct ScanModel {
    pub in_math: bool,
    pub escaped: bool,
    pub just_opened: bool,
    pub saw_space_after_open: bool,
    pub last_was_space: bool,
    pub buffer: Seq<char>,
}

impl View for ScanState {
    type V = ScanModel;

    open spec fn view(&self) -> ScanModel {
        ScanModel {
            in_math: self.in_math,
            escaped: self.escaped,
            just_opened: self.just_opened,
            saw_space_after_open: self.saw_space_after_open,
            last_was_space: self.last_was_space,
            buffer: self.buffer@,
        }
    }
}

/// The state at the start of a run.
pub open spec fn initial_model() -> ScanModel {
    ScanModel {
        in_math: false,
        escaped: false,
        just_opened: false,
        saw_space_after_open: false,
        last_was_space: false,
        buffer: Seq::empty(),
    }
}

/// A span is shown as a block only when whitespace follows its opening
/// delimiter and whitespace precedes its closing one.
pub open spec fn inline_verdict(saw_space_after_open: bool, last_was_space: bool) -> bool {
    !(saw_space_after_open && last_was_space)
}

/// One transition of the scanner on character `c`.
pub open spec fn step_model(s: ScanModel, c: char) -> (ScanModel, ActionView) {
    if c == ESCAPE && !s.escaped {
        (ScanModel { escaped: true, ..s }, ActionView::Nothing)
    } else if c == DELIMITER && !s.escaped {
        if s.in_math {
            (
                ScanModel { in_math: false, buffer: Seq::empty(), ..s },
                ActionView::Render(
                    s.buffer.push(c),
                    inline_verdict(s.saw_space_after_open, s.last_was_space),
                ),
            )
        } else {
            (
                ScanModel {
                    in_math: true,
                    just_opened: true,
                    saw_space_after_open: false,
                    last_was_space: false,
                    buffer: s.buffer.push(c),
                    ..s
                },
                ActionView::Nothing,
            )
        }
    } else {
        let next = ScanModel {
            escaped: false,
            just_opened: false,
            saw_space_after_open: s.saw_space_after_open || (s.just_opened && is_space(c)),
            last_was_space: is_space(c),
            buffer: if s.in_math { s.buffer.push(c) } else { s.buffer },
            ..s
        };
        (next, if s.in_math { ActionView::Nothing } else { ActionView::Emit(c) })
    }
}

/// The scanner's state and output after reading `cs` from the start of a run,
/// appending to `out`.
pub open spec fn run_model(out: Seq<SegmentView>, cs: Seq<char>) -> (ScanModel, Seq<SegmentView>)
    decreases cs.len(),
{
    if cs.len() == 0 {
        (initial_model(), out)
    } else {
        let (s, o) = run_model(out, cs.drop_last());
        let (s2, a) = step_model(s, cs.last());
        (s2, apply(o, a))
    }
}

/// The segments a whole text run turns into.
pub open spec fn scan_model(cs: Seq<char>) -> Seq<SegmentView> {
    run_model(Seq::empty(), cs).1
}

/// No character of `cs` is a delimiter or an escape marker.
pub open spec fn is_plain_run(cs: Seq<char>) -> bool {
    forall|i: int| 0 <= i < cs.len() ==> cs[i] != DELIMITER && cs[i] != ESCAPE
}

proof fn lemma_plain_prefix(cs: Seq<char>)
    requires
        is_plain_run(cs),
    ensures
        !run_model(Seq::empty(), cs).0.in_math,
        !run_model(Seq::empty(), cs).0.escaped,
        run_model(Seq::empty(), cs).1 == (if cs.len() == 0 {
            Seq::<SegmentView>::empty()
        } else {
            seq![SegmentView::Text(cs)]
        }),
    decreases cs.len(),
{
    if cs.len() > 0 {
        let init = cs.drop_last();
        lemma_plain_prefix(init);
        if init.len() > 0 {
            assert(init.push(cs.last()) =~= cs);
        } else {
            assert(seq![cs.last()] =~= cs);
        }
    }
}

/// A run with no delimiter and no escape marker comes out verbatim, as one
/// text segment (none when the run is empty).
pub proof fn lemma_plain_run_verbatim(cs: Seq<char>)
    requires
        is_plain_run(cs),
    ensures
        scan_model(cs) == (if cs.len() == 0 {
            Seq::<SegmentView>::empty()
        } else {
            seq![SegmentView::Text(cs)]
        }),
{
    lemma_plain_prefix(cs);
}

/// `out` is a single piece of plain text.
pub open spec fn is_single_text(out: Seq<SegmentView>) -> bool {
    out.len() == 1 && out[0] is Text
}

/// No character of `cs` is a delimiter.
pub open spec fn has_no_delimiter(cs: Seq<char>) -> bool {
    forall|i: int| 0 <= i < cs.len() ==> cs[i] != DELIMITER
}

/// Scanning a run with no delimiter onto a single piece of plain text leaves a
/// single piece of plain text.
pub proof fn lemma_no_delimiter_stays_text(out: Seq<SegmentView>, cs: Seq<char>)
    requires
        is_single_text(out),
        has_no_delimiter(cs),
    ensures
        is_single_text(run_model(out, cs).1),
    decreases cs.len(),
{
    if cs.len() > 0 {
        lemma_no_delimiter_stays_text(out, cs.drop_last());
    }
}

impl ScanState {
    pub fn new() -> (r: ScanState)
        ensures
            r@ == initial_model(),
    {
        ScanState {
            in_math: false,
            escaped: false,
            just_opened: false,
            saw_space_after_open: false,
            last_was_space: false,
            buffer: String::new(),
        }
    }

    /// Reads one character and says what the output receives.
    pub fn step(&mut self, c: char) -> (a: Action)
        ensures
            (final(self)@, a@) == step_model(old(self)@, c),
    {
        if c == ESCAPE && !self.escaped {
            self.escaped = true;
            Action::Nothing
        } else if c == DELIMITER && !self.escaped {
            self.buffer.push(c);
            if self.in_math {
                let is_inline = !(self.saw_space_after_open && self.last_was_space);
                let source = self.buffer.clone();
                self.buffer = String::new();
                self.in_math = false;
                proof {
                    assert(self@ == step_model(old(self)@, c).0);
                }
                Action::Render(MathSpan { source, is_inline })
            } else {
                self.in_math = true;
                self.just_opened = true;
                self.saw_space_after_open = false;
                self.last_was_space = false;
                Action::Nothing
            }
        } else {
            let space = is_space_char(c);
            if self.just_opened && space {
                self.saw_space_after_open = true;
            }
            self.last_was_space = space;
            self.just_opened = false;
            self.escaped = false;
            if self.in_math {
                self.buffer.push(c);
                Action::Nothing
            } else {
                Action::Emit(c)
            }
        }
    }
}

/// Appends a plain character to the output.
pub fn push_plain_char(out: &mut Vec<Segment>, c: char)
    ensures
        views(final(out)@) == push_plain(views(old(out)@), c),
{
    let ghost before = views(out@);
    match out.pop() {
        Some(Segment::Text(mut t)) => {
            t.push(c);
            out.push(Segment::Text(t));
            assert(views(out@) =~= push_plain(before, c));
        },
        Some(Segment::Math(m)) => {
            out.push(Segment::Math(m));
            let mut t = String::new();
            t.push(c);
            out.push(Segment::Text(t));
            assert(views(out@) =~= push_plain(before, c));
        },
        None => {
            let mut t = String::new();
            t.push(c);
            out.push(Segment::Text(t));
            assert(views(out@) =~= push_plain(before, c));
        },
    }
}

/// Applies one scanner action to the output.
pub fn apply_action(out: &mut Vec<Segment>, a: Action)
    ensures
        views(final(out)@) == apply(views(old(out)@), a@),
{
    match a {
        Action::Nothing => {},
        Action::Emit(c) => push_plain_char(out, c),
        Action::Render(m) => {
            let ghost before = views(out@);
            out.push(Segment::Math(m));
            assert(views(out@) =~= apply(before, a@));
        },
    }
}

/// Scans one text run left to right, appending plain text and math spans to
/// `out`. A span still open at the end of the run is dropped.
pub fn scan_text_into(text: &str, out: &mut Vec<Segment>)
    ensures
        views(final(out)@) == run_model(views(old(out)@), text@).1,
{
    let ghost start = views(out@);
    let cs = chars_of(text);
    let n = cs.len();
    let mut state = ScanState::new();
    let mut i: usize = 0;
    while i < n
        invariant
            cs@ == text@,
            n == cs.len(),
            0 <= i <= n,
            (state@, views(out@)) == run_model(start, text@.subrange(0, i as int)),
        decreases n - i,
    {
        let c = cs[i];
        let ghost prefix = text@.subrange(0, i as int);
        let a = state.step(c);
        apply_action(out, a);
        proof {
            assert(text@.subrange(0, i + 1).drop_last() =~= prefix);
        }
        i = i + 1;
    }
    proof {
        assert(text@.subrange(0, n as int) =~= text@);
    }
}

/// Scans one text run into plain text and math spans.
/// A span still open at the end of the run is dropped.
pub fn scan_text(text: &str) -> (r: Vec<Segment>)
    ensures
        views(r@) == scan_model(text@),
{
    let mut out: Vec<Segment> = Vec::new();
    proof {
        assert(views(out@) =~= Seq::<SegmentView>::empty());
    }
    scan_text_into(text, &mut out);
    out
}

/// Appends a piece of plain text, extending the last text segment when there is one.
pub open spec fn push_text(out: Seq<SegmentView>, t: Seq<char>) -> Seq<SegmentView> {
    if out.len() > 0 && out.last() is Text {
        out.drop_last().push(SegmentView::Text(out.last()->Text_0 + t))
    } else {
        out.push(SegmentView::Text(t))
    }
}

/// Appends a piece of plain text to the output.
pub fn push_text_str(out: &mut Vec<Segment>, t: &str)
    ensures
        views(final(out)@) == push_text(views(old(out)@), t@),
{
    let ghost before = views(out@);
    match out.pop() {
        Some(Segment::Text(mut s)) => {
            s.append(t);
            out.push(Segment::Text(s));
            assert(views(out@) =~= push_text(before, t@));
        },
        Some(Segment::Math(m)) => {
            out.push(Segment::Math(m));
            out.push(Segment::Text(String::from_str(t)));
            assert(views(out@) =~= push_text(before, t@));
        },
        None => {
            out.push(Segment::Text(String::from_str(t)));
            assert(views(out@) =~= push_text(before, t@));
        },
    }
}

} // verus!
