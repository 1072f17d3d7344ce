//! Markdown as lines for a screen: a writer takes the events of a parser one by one and keeps what
//! it has written so far, the styles and the lists that it stands in.

use pulldown_cmark::{Event, Tag};
use vstd::prelude::*;

use crate::chars::{blanks, cat, decimal, decimal_text, lines, split_lines, to_chars};
use crate::look::{colored, laid_over, plain, Color, Look};

verus! {

// ---------------------------------------------------------------------------
// What comes from outside

#[verifier::external_type_specification]
#[verifier::external_body]
pub struct ExEvent<'a>(pulldown_cmark::Event<'a>);

#[verifier::external_type_specification]
#[verifier::external_body]
pub struct ExTag<'a>(pulldown_cmark::Tag<'a>);

/// What an element of a text is.
#[derive(Clone, Copy, Debug, PartialEq, Eq, Structural)]
pub enum MdTag {
    Paragraph,
    Heading(usize),
    CodeBlock,
    Emphasis,
    Strong,
    BlockQuote,
    /// With the number of the first item, where the items are numbered.
    List(Option<u64>),
    Item,
    FootnoteDefinition,
    Table,
    TableHead,
    TableRow,
    TableCell,
    Strikethrough,
    Link,
    Image,
}

#[derive(Debug)]
pub enum MdEvent {
    Start(MdTag),
    End(MdTag),
    Text(String),
    Code(String),
    Html(String),
    FootnoteReference(String),
    SoftBreak,
    HardBreak,
    Rule,
    TaskListMarker,
}

pub enum EventV {
    Start(MdTag),
    End(MdTag),
    Text(Seq<char>),
    Code(Seq<char>),
    Html(Seq<char>),
    FootnoteReference(Seq<char>),
    SoftBreak,
    HardBreak,
    Rule,
    TaskListMarker,
}

impl View for MdEvent {
    type V = EventV;

    open spec fn view(&self) -> EventV {
        match self {
            MdEvent::Start(tag) => EventV::Start(*tag),
            MdEvent::End(tag) => EventV::End(*tag),
            MdEvent::Text(text) => EventV::Text(text@),
            MdEvent::Code(text) => EventV::Code(text@),
            MdEvent::Html(text) => EventV::Html(text@),
            MdEvent::FootnoteReference(text) => EventV::FootnoteReference(text@),
            MdEvent::SoftBreak => EventV::SoftBreak,
            MdEvent::HardBreak => EventV::HardBreak,
            MdEvent::Rule => EventV::Rule,
            MdEvent::TaskListMarker => EventV::TaskListMarker,
        }
    }
}

/// The events that a text in markdown consists of.
pub uninterp spec fn markdown(text: Seq<char>) -> Seq<EventV>;

/// What an event of the parser holds.
pub uninterp spec fn event_content(event: pulldown_cmark::Event) -> EventV;

/// What a tag of the parser holds.
pub uninterp spec fn tag_content(tag: pulldown_cmark::Tag) -> MdTag;

pub open spec fn contents(events: Seq<pulldown_cmark::Event>) -> Seq<EventV> {
    Seq::new(events.len(), |i: int| event_content(events[i]))
}

/// An event whose tag is still the parser's.
pub enum Opened<'a> {
    Start(pulldown_cmark::Tag<'a>),
    End(pulldown_cmark::Tag<'a>),
    Plain(MdEvent),
}

pub open spec fn opened_view(opened: Opened) -> EventV {
    match opened {
        Opened::Start(tag) => EventV::Start(tag_content(tag)),
        Opened::End(tag) => EventV::End(tag_content(tag)),
        Opened::Plain(event) => event@,
    }
}

/// `pulldown_cmark::Parser::new`, without extensions, and all events that the parser hands out:
/// they depend on the text alone.
#[verifier::external_body]
fn parse_markdown<'a>(text: &'a str) -> (out: Vec<pulldown_cmark::Event<'a>>)
    ensures
        contents(out@) == markdown(text@),
{
    pulldown_cmark::Parser::new(text).collect()
}

/// The variants of `pulldown_cmark::Event`, one for one, with the texts that they hold.
#[verifier::external_body]
fn open_event<'a>(event: pulldown_cmark::Event<'a>) -> (out: Opened<'a>)
    ensures
        opened_view(out) == event_content(event),
{
    match event {
        Event::Start(tag) => Opened::Start(tag),
        Event::End(tag) => Opened::End(tag),
        Event::Text(t) => Opened::Plain(MdEvent::Text(t.into_string())),
        Event::Code(t) => Opened::Plain(MdEvent::Code(t.into_string())),
        Event::Html(t) => Opened::Plain(MdEvent::Html(t.into_string())),
        Event::FootnoteReference(t) => {
            Opened::Plain(MdEvent::FootnoteReference(t.into_string()))
        },
        Event::SoftBreak => Opened::Plain(MdEvent::SoftBreak),
        Event::HardBreak => Opened::Plain(MdEvent::HardBreak),
        Event::Rule => Opened::Plain(MdEvent::Rule),
        Event::TaskListMarker(_) => Opened::Plain(MdEvent::TaskListMarker),
    }
}

/// The variants of `pulldown_cmark::Tag`, one for one, with the level of a heading and the first
/// number of a list.
#[verifier::external_body]
fn open_tag(tag: &pulldown_cmark::Tag<'_>) -> (out: MdTag)
    ensures
        out == tag_content(*tag),
{
    match tag {
        Tag::Paragraph => MdTag::Paragraph,
        Tag::Heading(level, _, _) => MdTag::Heading(*level as usize),
        Tag::CodeBlock(_) => MdTag::CodeBlock,
        Tag::Emphasis => MdTag::Emphasis,
        Tag::Strong => MdTag::Strong,
        Tag::BlockQuote => MdTag::BlockQuote,
        Tag::List(start) => MdTag::List(*start),
        Tag::Item => MdTag::Item,
        Tag::FootnoteDefinition(_) => MdTag::FootnoteDefinition,
        Tag::Table(_) => MdTag::Table, Tag::TableHead => MdTag::TableHead,
        Tag::TableRow => MdTag::TableRow, Tag::TableCell => MdTag::TableCell,
        Tag::Strikethrough => MdTag::Strikethrough,
        Tag::Link(..) => MdTag::Link, Tag::Image(..) => MdTag::Image,
    }
}

/// An event of the parser with what it holds.
fn read_event<'a>(event: pulldown_cmark::Event<'a>) -> (out: MdEvent)
    ensures
        out@ == event_content(event),
{
    match open_event(event) {
        Opened::Start(tag) => MdEvent::Start(open_tag(&tag)),
        Opened::End(tag) => MdEvent::End(open_tag(&tag)),
        Opened::Plain(event) => event,
    }
}

// ---------------------------------------------------------------------------
// Lines

/// A piece of a line in one style.
#[derive(Debug)]
pub struct Piece {
    pub text: String,
    pub style: Look,
}

pub open spec fn pieces_view(pieces: Seq<Piece>) -> Seq<(Seq<char>, Look)> {
    Seq::new(pieces.len(), |i: int| (pieces[i].text@, pieces[i].style))
}

/// A line, whether it may be wrapped and how far it is indented where it goes on.
#[derive(Debug)]
pub struct MarkedLine {
    pub spans: Vec<Piece>,
    pub no_wrap: bool,
    pub indent_level: usize,
}

pub struct MarkedV {
    pub spans: Seq<(Seq<char>, Look)>,
    pub no_wrap: bool,
    pub indent_level: nat,
}

impl View for MarkedLine {
    type V = MarkedV;

    open spec fn view(&self) -> MarkedV {
        MarkedV {
            spans: pieces_view(self.spans@),
            no_wrap: self.no_wrap,
            indent_level: self.indent_level as nat,
        }
    }
}

pub open spec fn marked_view(lines: Seq<MarkedLine>) -> Seq<MarkedV> {
    Seq::new(lines.len(), |i: int| lines[i]@)
}

pub open spec fn heading_style() -> Look {
    Look { fg: Some(Color::Cyan), bold: true, italic: false }
}

pub open spec fn emphasis_style() -> Look {
    Look { fg: None, bold: false, italic: true }
}

pub open spec fn strong_style() -> Look {
    Look { fg: None, bold: true, italic: false }
}

// ---------------------------------------------------------------------------
// The writer

#[derive(Debug)]
pub struct MdWriter {
    pub lines: Vec<MarkedLine>,
    pub inline_styles: Vec<Look>,
    pub list_indices: Vec<Option<u64>>,
    pub item_indents: Vec<usize>,
    pub in_code_block: bool,
    pub in_list_item_start: bool,
    pub needs_newline: bool,
}

pub struct WriterV {
    pub lines: Seq<MarkedV>,
    /// The style of each element that the text stands in, laid over those around it.
    pub styles: Seq<Look>,
    /// The number that the next item gets in each list that the text stands in.
    pub lists: Seq<Option<u64>>,
    /// How wide the marker of each item is that the text stands in.
    pub indents: Seq<nat>,
    pub code: bool,
    /// An item has begun and has no marker yet.
    pub item: bool,
    /// What comes next begins another paragraph.
    pub newline: bool,
}

pub open spec fn indents_view(v: Seq<usize>) -> Seq<nat> {
    Seq::new(v.len(), |i: int| v[i] as nat)
}

impl View for MdWriter {
    type V = WriterV;

    open spec fn view(&self) -> WriterV {
        WriterV {
            lines: marked_view(self.lines@),
            styles: self.inline_styles@,
            lists: self.list_indices@,
            indents: indents_view(self.item_indents@),
            code: self.in_code_block,
            item: self.in_list_item_start,
            newline: self.needs_newline,
        }
    }
}

pub open spec fn unwritten() -> WriterV {
    WriterV {
        lines: Seq::empty(),
        styles: Seq::empty(),
        lists: Seq::empty(),
        indents: Seq::empty(),
        code: false,
        item: false,
        newline: false,
    }
}

pub open spec fn indent_of(w: WriterV) -> nat {
    if w.indents.len() == 0 {
        0
    } else {
        w.indents.last()
    }
}

pub open spec fn style_of(w: WriterV) -> Look {
    if w.styles.len() == 0 {
        plain()
    } else {
        w.styles.last()
    }
}

pub open spec fn with_line(w: WriterV, spans: Seq<(Seq<char>, Look)>) -> WriterV {
    WriterV {
        lines: w.lines.push(
            MarkedV { spans, no_wrap: w.code, indent_level: indent_of(w) },
        ),
        ..w
    }
}

/// A piece goes to the end of the last line.
pub open spec fn with_span(w: WriterV, text: Seq<char>, style: Look) -> WriterV {
    if w.lines.len() == 0 {
        with_line(w, seq![(text, style)])
    } else {
        WriterV {
            lines: w.lines.drop_last().push(
                MarkedV { spans: w.lines.last().spans.push((text, style)), ..w.lines.last() },
            ),
            ..w
        }
    }
}

pub open spec fn with_style(w: WriterV, style: Look) -> WriterV {
    WriterV { styles: w.styles.push(laid_over(style_of(w), style)), ..w }
}

pub open spec fn without_style(w: WriterV) -> WriterV {
    if w.styles.len() == 0 {
        w
    } else {
        WriterV { styles: w.styles.drop_last(), ..w }
    }
}

/// What stands before an item, `depth` lists deep.
pub open spec fn marker(depth: nat, number: Option<u64>) -> Seq<char> {
    blanks((4 * (depth - 1)) as nat) + match number {
        None => "- "@,
        Some(n) => decimal(n as nat) + ". "@,
    }
}

/// The numbers of a list go up by one. They are 64 bits wide.
pub open spec fn next_number(number: Option<u64>) -> Option<u64> {
    match number {
        None => None,
        Some(n) => Some(
            if n == u64::MAX {
                0
            } else {
                (n + 1) as u64
            },
        ),
    }
}

/// The marker of an item goes to the end of the last line, and that line and the ones that follow
/// in the item go on behind the marker's width.
pub open spec fn with_marker(w: WriterV) -> WriterV {
    if w.lists.len() == 0 {
        w
    } else {
        let text = marker(w.lists.len(), w.lists.last());
        let numbered = WriterV {
            lists: w.lists.drop_last().push(next_number(w.lists.last())),
            indents: if w.indents.len() == 0 {
                w.indents
            } else {
                w.indents.drop_last().push(text.len())
            },
            ..w
        };
        let marked = with_span(numbered, text, plain());
        WriterV {
            lines: marked.lines.drop_last().push(
                MarkedV { indent_level: indent_of(marked), ..marked.lines.last() },
            ),
            ..marked
        }
    }
}

/// What an item begins with comes behind its marker.
pub open spec fn item_begun(w: WriterV) -> WriterV {
    if w.item {
        WriterV { item: false, ..with_marker(w) }
    } else {
        w
    }
}

/// A paragraph stands apart from the one before it.
pub open spec fn parted(w: WriterV) -> WriterV {
    if w.newline {
        with_line(w, Seq::empty())
    } else {
        w
    }
}

pub open spec fn hashes(level: nat) -> Seq<char> {
    Seq::new(level, |i: int| '#')
}

pub open spec fn tag_started(w: WriterV, tag: MdTag) -> WriterV {
    match tag {
        MdTag::Paragraph => {
            let apart = parted(w);
            WriterV {
                newline: false,
                ..if w.lists.len() == 0 {
                    with_line(apart, Seq::empty())
                } else {
                    apart
                }
            }
        },
        MdTag::Heading(level) => WriterV {
            newline: false,
            ..with_line(
                with_style(parted(w), heading_style()),
                seq![(hashes(level as nat) + " "@, heading_style())],
            )
        },
        MdTag::CodeBlock => WriterV { code: true, newline: false, ..parted(w) },
        MdTag::Emphasis => with_style(item_begun(w), emphasis_style()),
        MdTag::Strong => with_style(item_begun(w), strong_style()),
        MdTag::BlockQuote => WriterV { newline: false, ..parted(w) },
        MdTag::List(start) => {
            let apart = if w.lists.len() == 0 {
                parted(w)
            } else {
                w
            };
            WriterV { lists: apart.lists.push(start), newline: false, ..apart }
        },
        MdTag::Item => WriterV {
            item: true,
            newline: false,
            ..with_line(WriterV { indents: w.indents.push(0), ..w }, Seq::empty())
        },
        _ => w,
    }
}

pub open spec fn tag_ended(w: WriterV, tag: MdTag) -> WriterV {
    match tag {
        MdTag::Paragraph => WriterV { newline: true, ..w },
        MdTag::CodeBlock => WriterV { code: false, newline: true, ..w },
        MdTag::BlockQuote => WriterV { newline: true, ..w },
        MdTag::Heading(_) => WriterV { newline: true, ..without_style(w) },
        MdTag::Emphasis => without_style(w),
        MdTag::Strong => without_style(w),
        MdTag::List(_) => WriterV {
            lists: if w.lists.len() == 0 {
                w.lists
            } else {
                w.lists.drop_last()
            },
            newline: true,
            ..w
        },
        MdTag::Item => {
            let begun = item_begun(w);
            WriterV {
                indents: if begun.indents.len() == 0 {
                    begun.indents
                } else {
                    begun.indents.drop_last()
                },
                ..begun
            }
        },
        _ => w,
    }
}

/// The last line is not wrapped.
pub open spec fn unbroken(w: WriterV) -> WriterV {
    WriterV {
        lines: w.lines.drop_last().push(MarkedV { no_wrap: true, ..w.lines.last() }),
        ..w
    }
}

/// The lines of a code block, each on a line of its own that is not wrapped. The first one goes on
/// with the last line unless it has to stand apart.
pub open spec fn with_code(w: WriterV, ls: Seq<Seq<char>>) -> WriterV
    decreases ls.len(),
{
    if ls.len() == 0 {
        w
    } else {
        let before = with_code(w, ls.drop_last());
        let apart = if ls.len() > 1 || w.newline {
            with_line(before, Seq::empty())
        } else {
            before
        };
        unbroken(with_span(apart, ls.last(), colored(Color::White)))
    }
}

pub open spec fn ends_a_line(text: Seq<char>) -> bool {
    text.len() > 0 && text.last() == '\n'
}

pub open spec fn with_text(w: WriterV, text: Seq<char>) -> WriterV {
    let begun = item_begun(w);
    if begun.code {
        WriterV { newline: ends_a_line(text), ..with_code(begun, lines(text)) }
    } else {
        with_span(WriterV { newline: false, ..parted(begun) }, text, style_of(begun))
    }
}

pub open spec fn event_taken(w: WriterV, event: EventV) -> WriterV {
    match event {
        EventV::Start(tag) => tag_started(w, tag),
        EventV::End(tag) => tag_ended(w, tag),
        EventV::Text(text) => with_text(w, text),
        EventV::Code(text) => with_span(item_begun(w), text, colored(Color::Green)),
        EventV::SoftBreak => with_line(w, Seq::empty()),
        EventV::HardBreak => with_line(w, Seq::empty()),
        EventV::Rule => WriterV {
            newline: true,
            ..with_line(parted(w), seq![("\u{2500}\u{2500}\u{2500}"@, colored(Color::DarkGray))])
        },
        EventV::Html(text) => with_text(w, text),
        EventV::FootnoteReference(text) => with_text(w, text),
        EventV::TaskListMarker => w,
    }
}

pub open spec fn events_taken(w: WriterV, events: Seq<EventV>) -> WriterV
    decreases events.len(),
{
    if events.len() == 0 {
        w
    } else {
        event_taken(events_taken(w, events.drop_last()), events.last())
    }
}

proof fn lemma_pieces_push(v: Seq<Piece>, p: Piece)
    ensures
        pieces_view(v.push(p)) == pieces_view(v).push((p.text@, p.style)),
{
}

proof fn lemma_marked_push(v: Seq<MarkedLine>, line: MarkedLine)
    ensures
        marked_view(v.push(line)) == marked_view(v).push(line@),
{
}

fn hash_text(level: usize) -> (out: String)
    ensures
        out@ == hashes(level as nat),
{
    let mut out = String::new();
    for i in 0..level
        invariant
            out@ == hashes(i as nat),
    {
        out.push('#');
        assert(out@ =~= hashes((i + 1) as nat));
    }
    out
}

/// The blanks before an item, `depth` lists deep.
fn depth_text(depth: usize) -> (out: String)
    requires
        depth > 0,
    ensures
        out@ == blanks((4 * (depth - 1)) as nat),
{
    let mut out = String::new();
    assert(out@ =~= blanks(0));
    for i in 0..depth - 1
        invariant
            out@ == blanks((4 * i) as nat),
    {
        out = cat(out.as_str(), "    ");
        proof {
            reveal_strlit("    ");
        }
        assert(out@ =~= blanks((4 * (i + 1)) as nat));
    }
    out
}

fn ends_with_newline(text: &str) -> (b: bool)
    ensures
        b == ends_a_line(text@),
{
    let chars = to_chars(text);
    chars.len() > 0 && chars[chars.len() - 1] == '\n'
}

impl MdWriter {
    pub fn new() -> (out: Self)
        ensures
            out@ == unwritten(),
    {
        let out = MdWriter {
            lines: Vec::new(),
            inline_styles: Vec::new(),
            list_indices: Vec::new(),
            item_indents: Vec::new(),
            in_code_block: false,
            in_list_item_start: false,
            needs_newline: false,
        };
        assert(out@.lines =~= Seq::empty());
        assert(out@.indents =~= Seq::empty());
        out
    }

    fn indent(&self) -> (n: usize)
        ensures
            n == indent_of(self@),
    {
        if self.item_indents.len() == 0 {
            0
        } else {
            self.item_indents[self.item_indents.len() - 1]
        }
    }

    pub fn push_line(&mut self, spans: Vec<Piece>)
        ensures
            final(self)@ == with_line(old(self)@, pieces_view(spans@)),
    {
        let line = MarkedLine {
            spans,
            no_wrap: self.in_code_block,
            indent_level: self.indent(),
        };
        proof {
            lemma_marked_push(self.lines@, line);
        }
        self.lines.push(line);
    }

    fn push_empty(&mut self)
        ensures
            final(self)@ == with_line(old(self)@, Seq::empty()),
    {
        let spans: Vec<Piece> = Vec::new();
        assert(pieces_view(spans@) =~= Seq::empty());
        self.push_line(spans);
    }

    pub fn push_span(&mut self, span: Piece)
        ensures
            final(self)@ == with_span(old(self)@, span.text@, span.style),
    {
        let ghost before = self@;
        match self.lines.pop() {
            Some(last) => {
                let mut last = last;
                let ghost rest = self.lines@;
                assert(marked_view(rest) =~= before.lines.drop_last());
                assert(before.lines.last() == last@);
                proof {
                    lemma_pieces_push(last.spans@, span);
                }
                last.spans.push(span);
                proof {
                    lemma_marked_push(rest, last);
                }
                self.lines.push(last);
            },
            None => {
                let mut spans: Vec<Piece> = Vec::new();
                let ghost only = (span.text@, span.style);
                spans.push(span);
                assert(pieces_view(spans@) =~= seq![only]);
                self.push_line(spans);
            },
        }
    }

    pub fn current_style(&self) -> (out: Look)
        ensures
            out == style_of(self@),
    {
        if self.inline_styles.len() == 0 {
            Look::new()
        } else {
            self.inline_styles[self.inline_styles.len() - 1]
        }
    }

    pub fn push_style(&mut self, style: Look)
        ensures
            final(self)@ == with_style(old(self)@, style),
    {
        let composed = self.current_style().patch(style);
        self.inline_styles.push(composed);
    }

    pub fn pop_style(&mut self)
        ensures
            final(self)@ == without_style(old(self)@),
    {
        self.inline_styles.pop();
    }

    pub fn push_list_marker(&mut self)
        ensures
            final(self)@ == with_marker(old(self)@),
    {
        let ghost before = self@;
        let depth: usize = self.list_indices.len();
        match self.list_indices.pop() {
            None => {},
            Some(number) => {
                let indent = depth_text(depth);
                let (tail, next): (String, Option<u64>) = match number {
                    None => ("- ".to_string(), None),
                    Some(n) => {
                        let next: u64 = if n == u64::MAX {
                            0
                        } else {
                            n + 1
                        };
                        (cat(decimal_text(n).as_str(), ". "), Some(next))
                    },
                };
                let text = cat(indent.as_str(), tail.as_str());
                self.list_indices.push(next);
                assert(text@ == marker(before.lists.len(), before.lists.last()));
                let width: usize = to_chars(text.as_str()).len();
                match self.item_indents.pop() {
                    Some(_) => {
                        let ghost rest = self.item_indents@;
                        self.item_indents.push(width);
                        assert(self@.indents =~= before.indents.drop_last().push(text@.len()));
                    },
                    None => {
                        assert(self@.indents =~= before.indents);
                    },
                }
                self.push_span(Piece { text, style: Look::new() });
                let ghost marked = self@;
                match self.lines.pop() {
                    Some(last) => {
                        let mut last = last;
                        let ghost rest = self.lines@;
                        assert(marked_view(rest) =~= marked.lines.drop_last());
                        assert(marked.lines.last() == last@);
                        last.indent_level = self.indent();
                        proof {
                            lemma_marked_push(rest, last);
                        }
                        self.lines.push(last);
                    },
                    None => {
                        assert(marked.lines.len() == 0);
                    },
                }
            },
        }
    }

    fn begin_item(&mut self)
        ensures
            final(self)@ == item_begun(old(self)@),
    {
        if self.in_list_item_start {
            self.push_list_marker();
            self.in_list_item_start = false;
        }
    }

    fn part(&mut self)
        ensures
            final(self)@ == parted(old(self)@),
    {
        if self.needs_newline {
            self.push_empty();
        }
    }

    pub fn start_tag(&mut self, tag: MdTag)
        ensures
            final(self)@ == tag_started(old(self)@, tag),
    {
        let ghost before = self@;
        match tag {
            MdTag::Paragraph => {
                self.part();
                if self.list_indices.len() == 0 {
                    self.push_empty();
                }
                self.needs_newline = false;
            },
            MdTag::Heading(level) => {
                self.part();
                let style = Look::of(Color::Cyan).with_bold();
                self.push_style(style);
                let prefix = cat(hash_text(level).as_str(), " ");
                let ghost only = (prefix@, style);
                let mut spans: Vec<Piece> = Vec::new();
                spans.push(Piece { text: prefix, style });
                assert(pieces_view(spans@) =~= seq![only]);
                self.push_line(spans);
                self.needs_newline = false;
            },
            MdTag::CodeBlock => {
                self.part();
                self.in_code_block = true;
                self.needs_newline = false;
            },
            MdTag::Emphasis => {
                self.begin_item();
                self.push_style(Look::new().with_italic());
            },
            MdTag::Strong => {
                self.begin_item();
                self.push_style(Look::new().with_bold());
            },
            MdTag::BlockQuote => {
                self.part();
                self.needs_newline = false;
            },
            MdTag::List(start) => {
                if self.list_indices.len() == 0 {
                    self.part();
                }
                self.list_indices.push(start);
                self.needs_newline = false;
            },
            MdTag::Item => {
                self.item_indents.push(0);
                assert(self@.indents =~= before.indents.push(0));
                self.push_empty();
                self.in_list_item_start = true;
                self.needs_newline = false;
            },
            _ => {},
        }
    }

    pub fn end_tag(&mut self, tag: MdTag)
        ensures
            final(self)@ == tag_ended(old(self)@, tag),
    {
        let ghost before = self@;
        match tag {
            MdTag::Paragraph => {
                self.needs_newline = true;
            },
            MdTag::CodeBlock => {
                self.in_code_block = false;
                self.needs_newline = true;
            },
            MdTag::BlockQuote => {
                self.needs_newline = true;
            },
            MdTag::Heading(_) => {
                self.pop_style();
                self.needs_newline = true;
            },
            MdTag::Emphasis => {
                self.pop_style();
            },
            MdTag::Strong => {
                self.pop_style();
            },
            MdTag::List(_) => {
                self.list_indices.pop();
                self.needs_newline = true;
            },
            MdTag::Item => {
                self.begin_item();
                let ghost begun = self@;
                self.item_indents.pop();
                assert(begun.indents.len() > 0 ==> self@.indents =~= begun.indents.drop_last());
                assert(begun.indents.len() == 0 ==> self@.indents =~= begun.indents);
            },
            _ => {},
        }
    }

    fn keep_unbroken(&mut self)
        requires
            old(self).lines@.len() > 0,
        ensures
            final(self)@ == unbroken(old(self)@),
    {
        let ghost before = self@;
        match self.lines.pop() {
            Some(last) => {
                let mut last = last;
                let ghost rest = self.lines@;
                assert(marked_view(rest) =~= before.lines.drop_last());
                assert(before.lines.last() == last@);
                last.no_wrap = true;
                proof {
                    lemma_marked_push(rest, last);
                }
                self.lines.push(last);
            },
            None => {},
        }
    }

    pub fn text(&mut self, text: &str)
        ensures
            final(self)@ == with_text(old(self)@, text@),
    {
        self.begin_item();
        if self.in_code_block {
            let ls = split_lines(text);
            let ghost all = lines(text@);
            let ghost begun = self@;
            let mut i: usize = 0;
            assert(all.take(0) =~= Seq::empty());
            while i < ls.len()
                invariant
                    i <= ls@.len(),
                    crate::chars::texts(ls@) == all,
                    self@ == with_code(begun, all.take(i as int)),
                    self.needs_newline == begun.newline,
                decreases ls@.len() - i,
            {
                assert(all.take(i + 1).drop_last() =~= all.take(i as int));
                assert(all.take(i + 1).last() == ls@[i as int]@);
                if i > 0 || self.needs_newline {
                    self.push_empty();
                }
                self.push_span(Piece { text: ls[i].clone(), style: Look::of(Color::White) });
                assert(self@.lines.len() == self.lines@.len());
                self.keep_unbroken();
                i += 1;
            }
            assert(all.take(i as int) =~= all);
            self.needs_newline = ends_with_newline(text);
        } else {
            if self.needs_newline {
                self.push_empty();
                self.needs_newline = false;
            }
            let style = self.current_style();
            self.push_span(Piece { text: text.to_string(), style });
        }
    }

    pub fn code(&mut self, code: &str)
        ensures
            final(self)@ == event_taken(old(self)@, EventV::Code(code@)),
    {
        self.begin_item();
        self.push_span(Piece { text: code.to_string(), style: Look::of(Color::Green) });
    }

    pub fn soft_break(&mut self)
        ensures
            final(self)@ == event_taken(old(self)@, EventV::SoftBreak),
    {
        self.push_empty();
    }

    pub fn hard_break(&mut self)
        ensures
            final(self)@ == event_taken(old(self)@, EventV::HardBreak),
    {
        self.push_empty();
    }

    pub fn rule(&mut self)
        ensures
            final(self)@ == event_taken(old(self)@, EventV::Rule),
    {
        self.part();
        let style = Look::of(Color::DarkGray);
        let text = "\u{2500}\u{2500}\u{2500}".to_string();
        let ghost only = (text@, style);
        let mut spans: Vec<Piece> = Vec::new();
        spans.push(Piece { text, style });
        assert(pieces_view(spans@) =~= seq![only]);
        self.push_line(spans);
        self.needs_newline = true;
    }

    pub fn handle_event(&mut self, event: MdEvent)
        ensures
            final(self)@ == event_taken(old(self)@, event@),
    {
        match event {
            MdEvent::Start(tag) => self.start_tag(tag),
            MdEvent::End(tag) => self.end_tag(tag),
            MdEvent::Text(text) => self.text(text.as_str()),
            MdEvent::Code(code) => self.code(code.as_str()),
            MdEvent::SoftBreak => self.soft_break(),
            MdEvent::HardBreak => self.hard_break(),
            MdEvent::Rule => self.rule(),
            MdEvent::Html(html) => self.text(html.as_str()),
            MdEvent::FootnoteReference(name) => self.text(name.as_str()),
            MdEvent::TaskListMarker => {},
        }
    }
}

pub open spec fn events_view(events: Seq<MdEvent>) -> Seq<EventV> {
    Seq::new(events.len(), |i: int| events[i]@)
}

/// The lines that a row of events makes up.
pub fn write_events(events: Vec<MdEvent>) -> (out: Vec<MarkedLine>)
    ensures
        marked_view(out@) == events_taken(unwritten(), events_view(events@)).lines,
{
    let ghost all = events_view(events@);
    let mut writer = MdWriter::new();
    assert(all.take(0) =~= Seq::empty());
    for event in it: events
        invariant
            it.seq() == events@,
            all == events_view(events@),
            writer@ == events_taken(unwritten(), all.take(it.index() as int)),
    {
        let ghost i = it.index() as int;
        assert(all.take(i + 1).drop_last() =~= all.take(i));
        assert(all.take(i + 1).last() == event@);
        writer.handle_event(event);
    }
    assert(all.take(all.len() as int) =~= all);
    writer.lines
}

/// The lines of a text in markdown.
pub fn render_markdown(text: &str) -> (out: Vec<MarkedLine>)
    ensures
        marked_view(out@) == events_taken(unwritten(), markdown(text@)).lines,
{
    let parsed = parse_markdown(text);
    let ghost whole = contents(parsed@);
    let mut events: Vec<MdEvent> = Vec::new();
    for event in it: parsed
        invariant
            it.seq() == parsed@,
            whole == contents(parsed@),
            events_view(events@) == whole.take(it.index() as int),
    {
        let ghost i = it.index() as int;
        let ghost before = events@;
        let read = read_event(event);
        events.push(read);
        assert(events_view(events@) =~= events_view(before).push(read@));
        assert(whole.take(i + 1) =~= whole.take(i).push(whole[i]));
    }
    assert(whole.take(whole.len() as int) =~= whole);
    write_events(events)
}

// ---------------------------------------------------------------------------
// What holds of the writer

/// A strong text in an emphasized one is both, in the color that the text has around them.
pub proof fn nested_styles_add_up(w: WriterV)
    ensures
        style_of(tag_started(tag_started(w, MdTag::Emphasis), MdTag::Strong)) == (Look {
            fg: style_of(w).fg,
            bold: true,
            italic: true,
        }),
{
}

/// The style of an element ends where the element ends.
pub proof fn styles_end_with_their_element(w: WriterV, tag: MdTag)
    requires
        tag is Emphasis || tag is Strong || tag is Heading,
    ensures
        tag_ended(tag_started(w, tag), tag).styles == w.styles,
{
    let started = tag_started(w, tag);
    assert(started.styles.drop_last() =~= w.styles);
}

/// Where the lines of a code block begin.
pub open spec fn code_begins(w: WriterV) -> int {
    if w.newline || w.lines.len() == 0 {
        w.lines.len() as int
    } else {
        w.lines.len() - 1
    }
}

proof fn lemma_code_lines(w: WriterV, ls: Seq<Seq<char>>)
    ensures
        with_code(w, ls).lines.len() >= w.lines.len(),
        ls.len() > 0 ==> with_code(w, ls).lines.len() > code_begins(w),
        forall|i: int|
            0 <= i < w.lines.len() - 1 ==> #[trigger] with_code(w, ls).lines[i] == w.lines[i],
        ls.len() > 0 ==> forall|i: int|
            code_begins(w) <= i < with_code(w, ls).lines.len() ==> (
            #[trigger] with_code(w, ls).lines[i]).no_wrap,
    decreases ls.len(),
{
    if ls.len() > 0 {
        lemma_code_lines(w, ls.drop_last());
    }
}

/// The lines of a code block are never wrapped.
pub proof fn code_is_not_wrapped(w: WriterV, text: Seq<char>, i: int)
    requires
        w.code,
        lines(text).len() > 0,
        code_begins(item_begun(w)) <= i < with_text(w, text).lines.len(),
    ensures
        with_text(w, text).lines[i].no_wrap,
{
    lemma_code_lines(item_begun(w), lines(text));
}

/// No line is ever taken back, and only the last one is still written to.
pub proof fn lines_are_only_added(w: WriterV, event: EventV)
    ensures
        event_taken(w, event).lines.len() >= w.lines.len(),
        forall|i: int|
            0 <= i < w.lines.len() - 1 ==> #[trigger] event_taken(w, event).lines[i] == w.lines[i],
{
    let begun = item_begun(w);
    match event {
        EventV::Text(text) => {
            lemma_code_lines(begun, lines(text));
        },
        EventV::Html(text) => {
            lemma_code_lines(begun, lines(text));
        },
        EventV::FootnoteReference(text) => {
            lemma_code_lines(begun, lines(text));
        },
        _ => {},
    }
}

/// The text of an item stands on the line of its marker, and that line goes on behind the marker's
/// width.
pub proof fn item_text_follows_its_marker(w: WriterV, text: Seq<char>)
    requires
        w.item,
        !w.code,
        !w.newline,
        w.lists.len() > 0,
        w.indents.len() > 0,
        w.lines.len() > 0,
    ensures
        ({
            let sign = marker(w.lists.len(), w.lists.last());
            let after = with_text(w, text);
            &&& after.lines.len() == w.lines.len()
            &&& after.lines.last().spans == w.lines.last().spans + seq![
                (sign, plain()),
                (text, style_of(w)),
            ]
            &&& after.lines.last().indent_level == sign.len()
        }),
{
    let sign = marker(w.lists.len(), w.lists.last());
    let after = with_text(w, text);
    assert(after.lines.last().spans =~= w.lines.last().spans + seq![
        (sign, plain()),
        (text, style_of(w)),
    ]);
}

} // verus!
