//! Finding WaveDrom code blocks in Markdown, and putting the rendered diagrams in their place.
use vstd::prelude::*;
use pulldown_cmark::{CodeBlockKind, Event, Options, Parser, Tag};
use vstd::string::{StrSliceExecFns, StringSliceAdditionalSpecFns};

use crate::text::{
    chars_of, count_leading_whitespace, is_whitespace, starts_with_at, str_eq, trim, trim_range,
    trim_start,
};

verus! {

/// The word that opens the info string of a WaveDrom code block.
pub open spec fn wavedrom_word() -> Seq<char> {
    seq!['w', 'a', 'v', 'e', 'd', 'r', 'o', 'm']
}

/// The flag that keeps the source of a WaveDrom code block next to its diagram.
pub open spec fn with_source_word() -> Seq<char> {
    seq!['w', 'i', 't', 'h', '_', 's', 'o', 'u', 'r', 'c', 'e']
}

/// Does `s` start with `p`?
pub open spec fn starts_with(s: Seq<char>, p: Seq<char>) -> bool {
    p.len() <= s.len() && s.take(p.len() as int) == p
}

/// The parts of `s` between its commas.
pub open spec fn comma_parts(s: Seq<char>) -> Seq<Seq<char>>
    decreases s.len(),
{
    if s.len() == 0 {
        seq![seq![]]
    } else {
        let p = comma_parts(s.drop_last());
        if s.last() == ',' {
            p.push(seq![])
        } else {
            p.update(p.len() - 1, p.last().push(s.last()))
        }
    }
}

/// Is one of the comma separated flags `with_source`, whitespace aside?
pub open spec fn has_with_source(flags: Seq<char>) -> bool {
    exists|k: int|
        0 <= k < comma_parts(flags).len() && trim(#[trigger] comma_parts(flags)[k])
            == with_source_word()
}

/// What the info string of a fenced code block makes of it: `None` for a block that is not a
/// WaveDrom block, otherwise whether the block keeps its source.
///
/// A WaveDrom block's info string is `wavedrom`, or `wavedrom` followed by comma separated flags
/// in square brackets, whitespace aside.
pub open spec fn spec_fence_kind(info: Seq<char>) -> Option<bool> {
    let t = trim_start(info);
    if !starts_with(t, wavedrom_word()) {
        None
    } else if trim(info) == wavedrom_word() {
        Some(false)
    } else {
        let rest = trim(t.skip(8));
        if rest.len() > 0 && rest[0] == '[' && rest.last() == ']' {
            Some(has_with_source(trim(rest.subrange(1, rest.len() - 1))))
        } else {
            None
        }
    }
}

/// The parts of `s[from..to]` split at its commas, as found after a prefix was scanned.
proof fn lemma_comma_parts_step(s: Seq<char>, from: int, i: int)
    requires
        0 <= from <= i < s.len(),
    ensures
        comma_parts(s.subrange(from, i + 1)) == if s[i] == ',' {
            comma_parts(s.subrange(from, i)).push(seq![])
        } else {
            let p = comma_parts(s.subrange(from, i));
            p.update(p.len() - 1, p.last().push(s[i]))
        },
{
    assert(s.subrange(from, i + 1).drop_last() =~= s.subrange(from, i));
}

/// The parts of a text end with the text after its last comma.
proof fn lemma_comma_parts_nonempty(s: Seq<char>)
    ensures
        comma_parts(s).len() >= 1,
    decreases s.len(),
{
    if s.len() > 0 {
        lemma_comma_parts_nonempty(s.drop_last());
    }
}

/// Is one of the comma separated flags of `s[from..to]` `with_source`, whitespace aside?
fn has_with_source_in(s: &Vec<char>, from: usize, to: usize) -> (r: bool)
    requires
        from <= to <= s@.len(),
    ensures
        r == has_with_source(s@.subrange(from as int, to as int)),
{
    let mut found = false;
    let mut cur = from;
    let mut i = from;
    let ghost mut done: Seq<Seq<char>> = seq![];
    proof {
        let e = s@.subrange(from as int, from as int);
        assert(e =~= Seq::<char>::empty());
        assert(comma_parts(e) == seq![Seq::<char>::empty()]);
        assert(done.push(e) =~= seq![e]);
    }
    proof {
        reveal_strlit("with_source");
        assert("with_source"@ =~= with_source_word());
    }
    while i < to
        invariant
            from <= cur <= i <= to <= s@.len(),
            comma_parts(s@.subrange(from as int, i as int)) == done.push(
                s@.subrange(cur as int, i as int),
            ),
            found == exists|k: int| 0 <= k < done.len() && trim(#[trigger] done[k]) == with_source_word(),
        decreases to - i,
    {
        proof {
            lemma_comma_parts_step(s@, from as int, i as int);
        }
        if s[i] == ',' {
            let (lo, hi) = trim_range(s, cur, i);
            let is_flag = hi - lo == 11 && starts_with_at(s, lo, "with_source");
            proof {
                reveal_strlit("with_source");
                assert("with_source"@ =~= with_source_word());
                let old_done = done;
                let part = s@.subrange(cur as int, i as int);
                done = done.push(part);
                assert(done[old_done.len() as int] == part);
                assert(trim(part) == s@.subrange(lo as int, hi as int));
                assert(is_flag == (trim(part) == with_source_word())) by {
                    if is_flag {
                        assert(s@.subrange(lo as int, hi as int) =~= with_source_word());
                    }
                    if trim(part) == with_source_word() {
                        assert(hi - lo == 11);
                        assert(s@.subrange(lo as int, lo + 11) =~= "with_source"@);
                    }
                }
                if found {
                    let k = choose|k: int|
                        0 <= k < old_done.len() && trim(#[trigger] old_done[k]) == with_source_word();
                    assert(done[k] == old_done[k]);
                }
                assert forall|k: int| 0 <= k < done.len() && trim(#[trigger] done[k]) == with_source_word()
                    implies found || is_flag by {
                    if k < old_done.len() {
                        assert(done[k] == old_done[k]);
                    }
                }
                assert(s@.subrange(i + 1, i + 1) =~= seq![]);
            }
            found = found || is_flag;
            cur = i + 1;
        } else {
            proof {
                assert(s@.subrange(cur as int, i + 1) =~= s@.subrange(cur as int, i as int).push(
                    s@[i as int],
                ));
                assert(done.push(s@.subrange(cur as int, i as int)).update(
                    done.len() as int,
                    s@.subrange(cur as int, i + 1),
                ) =~= done.push(s@.subrange(cur as int, i + 1)));
            }
        }
        i = i + 1;
    }
    let (lo, hi) = trim_range(s, cur, to);
    let last = hi - lo == 11 && starts_with_at(s, lo, "with_source");
    proof {
        reveal_strlit("with_source");
        assert("with_source"@ =~= with_source_word());
        let parts = done.push(s@.subrange(cur as int, to as int));
        let part = s@.subrange(cur as int, to as int);
        assert(parts == comma_parts(s@.subrange(from as int, to as int)));
        assert(parts[done.len() as int] == part);
        assert(trim(part) == s@.subrange(lo as int, hi as int));
        assert(last == (trim(part) == with_source_word())) by {
            if last {
                assert(s@.subrange(lo as int, hi as int) =~= with_source_word());
            }
            if trim(part) == with_source_word() {
                assert(hi - lo == 11);
                assert(s@.subrange(lo as int, lo + 11) =~= "with_source"@);
            }
        }
        if found {
            let k = choose|k: int| 0 <= k < done.len() && trim(#[trigger] done[k]) == with_source_word();
            assert(parts[k] == done[k]);
        }
        if has_with_source(s@.subrange(from as int, to as int)) {
            let k = choose|k: int|
                0 <= k < parts.len() && trim(#[trigger] parts[k]) == with_source_word();
            if k < done.len() {
                assert(parts[k] == done[k]);
            }
        }
    }
    found || last
}

/// What the info string of a fenced code block makes of it (see [`spec_fence_kind`]).
pub fn fence_kind(info: &str) -> (r: Option<bool>)
    ensures
        r == spec_fence_kind(info@),
{
    let c = chars_of(info);
    let n = c.len();
    let a = count_leading_whitespace(&c, 0);
    assert(c@.skip(0) =~= info@);
    let ghost t = trim_start(info@);
    assert(t =~= c@.subrange(a as int, n as int));
    proof {
        reveal_strlit("wavedrom");
        assert("wavedrom"@ =~= wavedrom_word());
    }
    if !starts_with_at(&c, a, "wavedrom") {
        assert(!starts_with(t, wavedrom_word())) by {
            if starts_with(t, wavedrom_word()) {
                assert(c@.subrange(a as int, a + 8) =~= t.take(8));
            }
        }
        return None;
    }
    assert(t.take(8) =~= c@.subrange(a as int, a + 8));
    let (lo, hi) = trim_range(&c, 0, n);
    assert(c@.subrange(0, n as int) =~= info@);
    if hi - lo == 8 && starts_with_at(&c, lo, "wavedrom") {
        assert(c@.subrange(lo as int, hi as int) =~= wavedrom_word());
        return Some(false);
    }
    assert(trim(info@) != wavedrom_word()) by {
        if trim(info@) == wavedrom_word() {
            assert(c@.subrange(lo as int, lo + 8) =~= c@.subrange(lo as int, hi as int));
        }
    }
    let (rlo, rhi) = trim_range(&c, a + 8, n);
    assert(t.skip(8) =~= c@.subrange(a + 8, n as int));
    let ghost rest = trim(t.skip(8));
    if rhi > rlo && c[rlo] == '[' && c[rhi - 1] == ']' {
        assert(rest[0] == c@[rlo as int]);
        assert(rest.last() == c@[rhi - 1]);
        if rhi - rlo < 2 {
            assert(false);
        }
        let (flo, fhi) = trim_range(&c, rlo + 1, rhi - 1);
        assert(rest.subrange(1, rest.len() - 1) =~= c@.subrange(rlo + 1, rhi - 1));
        Some(has_with_source_in(&c, flo, fhi))
    } else {
        assert(!(rest.len() > 0 && rest[0] == '[' && rest.last() == ']')) by {
            if rest.len() > 0 {
                assert(rest[0] == c@[rlo as int]);
                assert(rest.last() == c@[rhi - 1]);
            }
        }
        None
    }
}

/// The preprocessor that puts WaveDrom diagrams in the chapters of a book.
pub struct WavedromPreProcessor;

impl WavedromPreProcessor {
    /// Create the preprocessor.
    pub fn new() -> (r: WavedromPreProcessor) {
        WavedromPreProcessor
    }

    /// The name of the preprocessor.
    pub fn name(&self) -> (r: &'static str)
        ensures
            r@ == "wavedrom"@,
    {
        "wavedrom"
    }

    /// Does the preprocessor support `renderer`: any but `not-supported`?
    pub fn supports_renderer(&self, renderer: &str) -> (r: bool)
        ensures
            r == (renderer@ != "not-supported"@),
    {
        !str_eq(renderer, "not-supported")
    }
}

/// What an event of a Markdown parse is, as far as finding WaveDrom blocks goes.
#[derive(Debug, Clone)]
pub enum MdEventKind {
    /// The start of a fenced code block, with its info string.
    FenceStart(String),
    /// The end of a fenced code block, with its info string.
    FenceEnd(String),
    /// A text.
    Text,
    /// Any other event.
    Other,
}

/// An event of a Markdown parse with the byte range of the text it stands for.
#[derive(Debug, Clone)]
pub struct MdEvent {
    pub kind: MdEventKind,
    pub start: usize,
    pub end: usize,
}

impl MdEvent {
    /// The event as plain values: its kind (0 another event, 1 the start of a fenced code block,
    /// 2 a text, 3 the end of a fenced code block), its info string (empty but for fenced code
    /// blocks) and its byte range.
    pub open spec fn view(self) -> (u8, Seq<char>, usize, usize) {
        match self.kind {
            MdEventKind::FenceStart(s) => (1, s@, self.start, self.end),
            MdEventKind::FenceEnd(s) => (3, s@, self.start, self.end),
            MdEventKind::Text => (2, Seq::empty(), self.start, self.end),
            MdEventKind::Other => (0, Seq::empty(), self.start, self.end),
        }
    }
}

/// The events that pulldown-cmark's Markdown parser, with tables, footnotes, strikethrough and
/// task lists enabled, makes of a text, each as [`MdEvent::view`] gives it.
pub uninterp spec fn markdown_events(content: Seq<char>) -> Seq<(u8, Seq<char>, usize, usize)>;

/// Parses Markdown through `pulldown_cmark::Parser::new_ext` with tables, footnotes,
/// strikethrough and task lists, and `into_offset_iter`. Claims only that the events, kept with
/// their byte ranges and told apart as fenced code block starts and ends (with their info
/// strings), texts and other events, are what [`markdown_events`] names for the text.
#[verifier::external_body]
fn parse_markdown(content: &str) -> (r: Vec<MdEvent>)
    ensures
        r@.map_values(|e: MdEvent| e.view()) == markdown_events(content@),
{
    let options = Options::ENABLE_TABLES | Options::ENABLE_FOOTNOTES
        | Options::ENABLE_STRIKETHROUGH | Options::ENABLE_TASKLISTS;
    let mut events = Vec::new();
    for (event, span) in Parser::new_ext(content, options).into_offset_iter() {
        let kind = match event {
            Event::Start(Tag::CodeBlock(CodeBlockKind::Fenced(info))) => MdEventKind::FenceStart(info.to_string()),
            Event::End(Tag::CodeBlock(CodeBlockKind::Fenced(info))) => MdEventKind::FenceEnd(info.to_string()),
            Event::Text(_) => MdEventKind::Text,
            _ => MdEventKind::Other,
        };
        events.push(MdEvent { kind, start: span.start, end: span.end });
    }
    events
}

/// A WaveDrom block found in a Markdown text: its byte range, its text (the JSON of its figure)
/// and, when it keeps its source, the byte range of its opening fence line.
#[derive(Debug, Clone)]
pub struct DiagramBlock {
    pub start: usize,
    pub end: usize,
    pub text: Vec<u8>,
    pub keep_source: Option<(usize, usize)>,
}

impl DiagramBlock {
    /// The block as plain values.
    pub open spec fn view(self) -> (usize, usize, Seq<u8>, Option<(usize, usize)>) {
        (self.start, self.end, self.text@, self.keep_source)
    }
}

/// The state of a search for WaveDrom blocks: the start of the last block opened, the range of
/// its fence line when it keeps its source, the text gathered, the blocks found, and whether the
/// search failed (where the text could not be cut as the events say, or a code block that is not
/// a WaveDrom block closes while one is open).
pub type ScanState = (
    Option<usize>,
    Option<(usize, usize)>,
    Seq<u8>,
    Seq<(usize, usize, Seq<u8>, Option<(usize, usize)>)>,
    bool,
);

/// The offset of the first line feed of `content` from `from` on, if any.
pub open spec fn newline_after(content: Seq<u8>, from: int) -> Option<int>
    decreases content.len() - from,
{
    if from >= content.len() {
        None
    } else if content[from] == 10 {
        Some(0)
    } else {
        match newline_after(content, from + 1) {
            Some(o) => Some(o + 1),
            None => None,
        }
    }
}

/// The state after the event `e` of a Markdown parse of `content`.
pub open spec fn scan_step(st: ScanState, e: (u8, Seq<char>, usize, usize), content: Seq<u8>) -> ScanState {
    let failed = (st.0, st.1, st.2, st.3, true);
    if st.4 {
        st
    } else if e.0 == 1 {
        match spec_fence_kind(e.1) {
            None => st,
            Some(false) => (Some(e.2), st.1, st.2, st.3, false),
            Some(true) => if e.2 > content.len() {
                failed
            } else {
                let tag_end = match newline_after(content, e.2 as int) {
                    Some(o) => e.2 + o,
                    None => e.2 + e.3,
                };
                if tag_end > usize::MAX {
                    failed
                } else {
                    (Some(e.2), Some((e.2, tag_end as usize)), st.2, st.3, false)
                }
            },
        }
    } else if st.0.is_none() {
        st
    } else if e.0 == 2 {
        if e.2 <= e.3 <= content.len() {
            (st.0, st.1, st.2 + content.subrange(e.2 as int, e.3 as int), st.3, false)
        } else {
            failed
        }
    } else if e.0 == 3 {
        if !starts_with(trim_start(e.1), wavedrom_word()) || e.3 < st.0.unwrap() {
            failed
        } else {
            (st.0, None, Seq::empty(), st.3.push((st.0.unwrap(), e.3, st.2, st.1)), false)
        }
    } else {
        st
    }
}

/// The state after the events `events` of a Markdown parse of `content`.
pub open spec fn scan_events(events: Seq<(u8, Seq<char>, usize, usize)>, content: Seq<u8>) -> ScanState
    decreases events.len(),
{
    if events.len() == 0 {
        (None, None, Seq::empty(), Seq::empty(), false)
    } else {
        scan_step(scan_events(events.drop_last(), content), events.last(), content)
    }
}

/// The WaveDrom blocks found in a Markdown text, and whether the search failed after them.
#[derive(Debug, Clone)]
pub struct DiagramScan {
    pub blocks: Vec<DiagramBlock>,
    pub failed: bool,
}

/// The offset of the first line feed of `content` from `from` on, if any.
fn find_newline(content: &[u8], from: usize) -> (r: Option<usize>)
    requires
        from <= content@.len(),
    ensures
        match newline_after(content@, from as int) {
            Some(o) => o >= 0 && r == Some(o as usize) && from + o < content@.len(),
            None => r is None,
        },
{
    let mut j = content.len();
    let mut found: Option<usize> = None;
    while j > from
        invariant
            from <= j <= content@.len(),
            match found {
                Some(o) => newline_after(content@, j as int) == Some((o - j) as int) && j <= o
                    < content@.len(),
                None => newline_after(content@, j as int) is None,
            },
        decreases j - from,
    {
        j = j - 1;
        if content[j] == 10 {
            found = Some(j);
        }
    }
    match found {
        Some(o) => Some(o - from),
        None => None,
    }
}

/// Search the events of a Markdown parse of `content` for WaveDrom blocks (see
/// [`scan_events`]).
pub fn find_diagrams(events: &[MdEvent], content: &[u8]) -> (r: DiagramScan)
    ensures
        ({
            let st = scan_events(events@.map_values(|e: MdEvent| e.view()), content@);
            &&& r.blocks@.map_values(|b: DiagramBlock| b.view()) == st.3
            &&& r.failed == st.4
        }),
{
    let ghost evs = events@.map_values(|e: MdEvent| e.view());
    let mut block: Option<usize> = None;
    let mut keep: Option<(usize, usize)> = None;
    let mut text: Vec<u8> = Vec::new();
    let mut blocks: Vec<DiagramBlock> = Vec::new();
    let mut failed = false;
    let mut i: usize = 0;
    while i < events.len()
        invariant
            i <= events@.len(),
            evs == events@.map_values(|e: MdEvent| e.view()),
            (block, keep, text@, blocks@.map_values(|b: DiagramBlock| b.view()), failed)
                == scan_events(evs.subrange(0, i as int), content@),
        decreases events@.len() - i,
    {
        let ghost st = (block, keep, text@, blocks@.map_values(|b: DiagramBlock| b.view()), failed);
        let ghost next = evs.subrange(0, i + 1);
        assert(next.drop_last() =~= evs.subrange(0, i as int));
        assert(next.last() == events@[i as int].view());
        let e = &events[i];
        assert(evs[i as int] == e.view());
        if !failed {
            match &e.kind {
                MdEventKind::FenceStart(info) => {
                    match fence_kind(info.as_str()) {
                        None => {},
                        Some(false) => {
                            block = Some(e.start);
                            assert(scan_step(st, evs[i as int], content@).0 == Some(e.start));
                        },
                        Some(true) => {
                            if e.start > content.len() {
                                failed = true;
                            } else {
                                let tag_end = match find_newline(content, e.start) {
                                    Some(o) => e.start.checked_add(o),
                                    None => e.start.checked_add(e.end),
                                };
                                match tag_end {
                                    Some(t) => {
                                        block = Some(e.start);
                                        keep = Some((e.start, t));
                                        assert(scan_step(st, evs[i as int], content@).0 == Some(e.start));
                                        assert(scan_step(st, evs[i as int], content@).1 == keep);
                                    },
                                    None => {
                                        failed = true;
                                    },
                                }
                            }
                        },
                    }
                },
                MdEventKind::Text => {
                    if block.is_some() {
                        if e.start <= e.end && e.end <= content.len() {
                            let ghost before = text@;
                            let mut k = e.start;
                            while k < e.end
                                invariant
                                    e.start <= k <= e.end <= content@.len(),
                                    text@ == before + content@.subrange(e.start as int, k as int),
                                decreases e.end - k,
                            {
                                text.push(content[k]);
                                k = k + 1;
                                assert(text@ =~= before + content@.subrange(e.start as int, k as int));
                            }
                        } else {
                            failed = true;
                        }
                    }
                },
                MdEventKind::FenceEnd(info) => {
                    match block {
                        Some(b) => {
                            let c = chars_of(info.as_str());
                            let a = count_leading_whitespace(&c, 0);
                            proof {
                                reveal_strlit("wavedrom");
                                assert("wavedrom"@ =~= wavedrom_word());
                                assert(c@.skip(0) =~= info@);
                                assert(trim_start(info@) =~= c@.subrange(a as int, c@.len() as int));
                            }
                            let opens = starts_with_at(&c, a, "wavedrom");
                            assert(opens == starts_with(trim_start(info@), wavedrom_word())) by {
                                if starts_with(trim_start(info@), wavedrom_word()) {
                                    assert(trim_start(info@).take(8) =~= c@.subrange(a as int, a + 8));
                                }
                                if opens {
                                    assert(trim_start(info@).take(8) =~= c@.subrange(a as int, a + 8));
                                }
                            }
                            if !opens || e.end < b {
                                failed = true;
                            } else {
                                let ghost old_blocks = blocks@;
                                let mut done_text: Vec<u8> = Vec::new();
                                std::mem::swap(&mut done_text, &mut text);
                                blocks.push(
                                    DiagramBlock { start: b, end: e.end, text: done_text, keep_source: keep },
                                );
                                keep = None;
                                assert(blocks@.map_values(|x: DiagramBlock| x.view()) =~= old_blocks.map_values(
                                    |x: DiagramBlock| x.view(),
                                ).push((b, e.end, st.2, st.1)));
                            }
                        },
                        None => {},
                    }
                },
                MdEventKind::Other => {},
            }
        }
        let ghost want = scan_step(st, evs[i as int], content@);
        assert(block == want.0);
        assert(keep == want.1);
        assert(text@ == want.2);
        assert(blocks@.map_values(|b: DiagramBlock| b.view()) == want.3);
        assert(failed == want.4);
        assert((block, keep, text@, blocks@.map_values(|b: DiagramBlock| b.view()), failed) == scan_step(
            st,
            evs[i as int],
            content@,
        ));
        i = i + 1;
    }
    assert(evs.subrange(0, evs.len() as int) =~= evs);
    DiagramScan { blocks, failed }
}

/// Find the WaveDrom blocks of a Markdown text (see [`find_diagrams`]).
pub fn wavedrom_blocks(content: &str) -> (r: DiagramScan)
    ensures
        ({
            let st = scan_events(markdown_events(content@), content.spec_bytes());
            &&& r.blocks@.map_values(|b: DiagramBlock| b.view()) == st.3
            &&& r.failed == st.4
        }),
{
    let events = parse_markdown(content);
    find_diagrams(events.as_slice(), content.as_bytes())
}

/// The bytes of `<pre class="wavedrom">`, which open a diagram.
pub open spec fn pre_open() -> Seq<u8> {
    seq![
        60u8, 112, 114, 101, 32, 99, 108, 97, 115, 115, 61, 34, 119, 97, 118, 101, 100, 114, 111,
        109, 34, 62,
    ]
}

/// The bytes of `</pre>` and two line feeds, which close a diagram.
pub open spec fn pre_close() -> Seq<u8> {
    seq![60u8, 47, 112, 114, 101, 62, 10, 10]
}

/// The bytes of the fence "```json", which opens the kept source of a diagram.
pub open spec fn json_fence() -> Seq<u8> {
    seq![96u8, 96, 96, 106, 115, 111, 110]
}

/// A rendered WaveDrom block: the byte range of its block, its SVG, and the byte range of its
/// opening fence line when it keeps its source.
#[derive(Debug, Clone)]
pub struct RenderedBlock {
    pub start: usize,
    pub end: usize,
    pub svg: Vec<u8>,
    pub keep_source: Option<(usize, usize)>,
}

impl RenderedBlock {
    /// The block as plain values.
    pub open spec fn view(self) -> (usize, usize, Seq<u8>, Option<(usize, usize)>) {
        (self.start, self.end, self.svg@, self.keep_source)
    }
}

/// `content` from byte `prev` on with the blocks `ds` replaced by their diagrams: each block by
/// its SVG between `<pre class="wavedrom">` and `</pre>`, followed, when it keeps its source,
/// by the block with its opening fence line made a JSON fence. `None` where a byte range does
/// not fit the text or the blocks are out of order.
pub open spec fn spliced(
    content: Seq<u8>,
    ds: Seq<(usize, usize, Seq<u8>, Option<(usize, usize)>)>,
    prev: int,
) -> Option<Seq<u8>>
    decreases ds.len(),
{
    if ds.len() == 0 {
        if 0 <= prev <= content.len() {
            Some(content.subrange(prev, content.len() as int))
        } else {
            None
        }
    } else {
        let d = ds[0];
        if !(0 <= prev <= d.0 <= content.len()) {
            None
        } else {
            let piece = content.subrange(prev, d.0 as int) + pre_open() + d.2 + pre_close();
            let kept = match d.3 {
                None => Some(Seq::<u8>::empty()),
                Some(tag) => if d.0 <= tag.0 <= content.len() && tag.1 <= d.1 <= content.len() {
                    Some(
                        content.subrange(d.0 as int, tag.0 as int) + json_fence()
                            + content.subrange(tag.1 as int, d.1 as int),
                    )
                } else {
                    None
                },
            };
            match kept {
                None => None,
                Some(k) => match spliced(content, ds.drop_first(), d.1 as int) {
                    None => None,
                    Some(rest) => Some(piece + k + rest),
                },
            }
        }
    }
}

/// `rest` with `prefix` before it, if there is a rest.
pub open spec fn prepend(prefix: Seq<u8>, rest: Option<Seq<u8>>) -> Option<Seq<u8>> {
    match rest {
        Some(r) => Some(prefix + r),
        None => None,
    }
}

/// Appends `content[from..to]` to `out`.
fn push_range(out: &mut Vec<u8>, content: &[u8], from: usize, to: usize)
    requires
        from <= to <= content@.len(),
    ensures
        final(out)@ == old(out)@ + content@.subrange(from as int, to as int),
{
    let ghost start = out@;
    let mut k = from;
    while k < to
        invariant
            from <= k <= to <= content@.len(),
            out@ == start + content@.subrange(from as int, k as int),
        decreases to - k,
    {
        out.push(content[k]);
        k = k + 1;
        assert(out@ =~= start + content@.subrange(from as int, k as int));
    }
}

/// Appends `bytes` to `out`.
fn push_bytes(out: &mut Vec<u8>, bytes: &[u8])
    ensures
        final(out)@ == old(out)@ + bytes@,
{
    push_range(out, bytes, 0, bytes.len());
    assert(bytes@.subrange(0, bytes@.len() as int) =~= bytes@);
}

/// Put the rendered diagrams `diagrams` in the place of their blocks in `content` (see
/// [`spliced`]).
pub fn splice_diagrams(content: &[u8], diagrams: &[RenderedBlock]) -> (r: Option<Vec<u8>>)
    ensures
        match spliced(content@, diagrams@.map_values(|d: RenderedBlock| d.view()), 0) {
            Some(s) => r matches Some(v) && v@ == s,
            None => r is None,
        },
{
    let ghost ds = diagrams@.map_values(|d: RenderedBlock| d.view());
    let open: [u8; 22] = [
        60, 112, 114, 101, 32, 99, 108, 97, 115, 115, 61, 34, 119, 97, 118, 101, 100, 114, 111, 109,
        34, 62,
    ];
    let close: [u8; 8] = [60, 47, 112, 114, 101, 62, 10, 10];
    let fence: [u8; 7] = [96, 96, 96, 106, 115, 111, 110];
    assert(open@ =~= pre_open());
    assert(close@ =~= pre_close());
    assert(fence@ =~= json_fence());
    let mut out: Vec<u8> = Vec::new();
    let mut prev: usize = 0;
    let mut i: usize = 0;
    assert(ds.skip(0) =~= ds);
    while i < diagrams.len()
        invariant
            i <= diagrams@.len(),
            ds == diagrams@.map_values(|d: RenderedBlock| d.view()),
            open@ == pre_open(),
            close@ == pre_close(),
            fence@ == json_fence(),
            spliced(content@, ds, 0) == prepend(out@, spliced(content@, ds.skip(i as int), prev as int)),
        decreases diagrams@.len() - i,
    {
        let d = &diagrams[i];
        let ghost rest = ds.skip(i as int);
        assert(rest[0] == d.view());
        assert(rest.drop_first() =~= ds.skip(i + 1));
        if !(prev <= d.start && d.start <= content.len()) {
            return None;
        }
        let ghost before = out@;
        push_range(&mut out, content, prev, d.start);
        push_bytes(&mut out, &open);
        push_bytes(&mut out, d.svg.as_slice());
        push_bytes(&mut out, &close);
        match d.keep_source {
            None => {},
            Some((ts, te)) => {
                if !(d.start <= ts && ts <= content.len() && te <= d.end && d.end <= content.len()) {
                    return None;
                }
                push_range(&mut out, content, d.start, ts);
                push_bytes(&mut out, &fence);
                push_range(&mut out, content, te, d.end);
            },
        }
        proof {
            let piece = content@.subrange(prev as int, d.start as int) + pre_open() + d.svg@
                + pre_close();
            let kept = match d.keep_source {
                None => Seq::<u8>::empty(),
                Some(tag) => content@.subrange(d.start as int, tag.0 as int) + json_fence()
                    + content@.subrange(tag.1 as int, d.end as int),
            };
            assert(out@ =~= before + piece + kept);
            match spliced(content@, ds.skip(i + 1), d.end as int) {
                Some(r) => {
                    assert(before + (piece + kept + r) =~= out@ + r);
                },
                None => {},
            }
        }
        prev = d.end;
        i = i + 1;
    }
    if prev > content.len() {
        return None;
    }
    push_range(&mut out, content, prev, content.len());
    Some(out)
}

/// A text in which no diagram was found is left as it is.
pub proof fn lemma_splice_nothing(content: Seq<u8>)
    ensures
        spliced(content, Seq::empty(), 0) == Some(content),
{
    assert(content.subrange(0, content.len() as int) =~= content);
}

} // verus!
