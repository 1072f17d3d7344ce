//! What the list of windows looks like.

use vstd::prelude::*;

use crate::chars::{cat, decimal, decimal_text, opt_str, pad_text, padded, same};
use crate::look::Color;
use crate::view::{rows_of, smaller, visible_rows};
use crate::window::{
    description, displayed_description, windows_view, StatusV, ThreadStatus, Window, WindowV,
};

verus! {

/// What has to be attended to is shown in this color of the terminal's palette.
pub const ATTENTION_INDEX: u8 = 173;

/// A piece of a row in one color.
#[derive(Debug)]
pub struct Span {
    pub text: String,
    pub fg: Color,
}

#[derive(Debug)]
pub struct Row {
    pub spans: Vec<Span>,
    /// The background of the whole row.
    pub bg: Color,
}

#[derive(Debug)]
pub struct Screen {
    pub title: String,
    pub rows: Vec<Row>,
    pub footer: String,
    pub footer_fg: Color,
}

pub struct RowV {
    pub spans: Seq<(Seq<char>, Color)>,
    pub bg: Color,
}

impl View for Row {
    type V = RowV;

    open spec fn view(&self) -> RowV {
        RowV {
            spans: Seq::new(self.spans@.len(), |i: int| (self.spans@[i].text@, self.spans@[i].fg)),
            bg: self.bg,
        }
    }
}

pub open spec fn rows_view(rows: Seq<Row>) -> Seq<RowV> {
    Seq::new(rows.len(), |i: int| rows[i]@)
}

pub open spec fn status_text(status: StatusV) -> Seq<char> {
    match status {
        StatusV::Active { .. } => "active"@,
        StatusV::Idle => "idle"@,
        StatusV::NotLoaded => "unloaded"@,
        StatusV::SystemError => "error"@,
    }
}

pub open spec fn status_color(status: StatusV) -> Color {
    match status {
        StatusV::Active { .. } => Color::Green,
        StatusV::Idle => Color::DarkGray,
        StatusV::NotLoaded => Color::DarkGray,
        StatusV::SystemError => Color::Red,
    }
}

/// What is shown of a window stands out where somebody has to attend to it.
pub open spec fn description_color(w: WindowV) -> Color {
    match w.classification {
        Some(entry) if entry.attention => Color::Indexed(ATTENTION_INDEX),
        _ => Color::Reset,
    }
}

/// The row of a window. That of the selected one is set off by its background.
pub open spec fn row_of(w: WindowV, selected_slug: Option<Seq<char>>) -> RowV {
    RowV {
        spans: seq![
            (padded(status_text(w.status), 10), status_color(w.status)),
            (padded(w.slug, 20), Color::Cyan),
            (description(w), description_color(w)),
        ],
        bg: if selected_slug == Some(w.slug) {
            Color::DarkGray
        } else {
            Color::Reset
        },
    }
}

pub open spec fn title_of(count: nat) -> Seq<char> {
    decimal(count) + " primary Codex windows"@
}

/// The rows that are visible: a screenful from the first visible one.
pub open spec fn visible(matches: Seq<usize>, offset: int, page: int) -> Seq<usize> {
    if offset >= matches.len() {
        Seq::empty()
    } else {
        matches.subrange(offset, smaller(offset + page, matches.len() as int))
    }
}

/// Which rows are visible, where not all of them are.
pub open spec fn position_text(count: int, offset: int, page: int) -> Seq<char> {
    if count <= page {
        ""@
    } else {
        "  "@ + decimal((offset + 1) as nat) + "-"@ + decimal(smaller(offset + page, count) as nat)
            + " of "@ + decimal(count as nat)
    }
}

pub open spec fn footer_of(query: Option<Seq<char>>, count: int, offset: int, page: int) -> Seq<
    char,
> {
    match query {
        Some(q) => if count == 0 {
            "find /"@ + q + "  no matches  Esc clear"@
        } else {
            "find /"@ + q + "  "@ + decimal(count as nat) + " "@ + (if count == 1 {
                "match"@
            } else {
                "matches"@
            }) + "  Up/Down select  Enter open  Esc clear"@
        },
        None => "j/k select  g/G first/last  / find  Enter open  q quit"@ + position_text(
            count,
            offset,
            page,
        ),
    }
}

pub fn status(thread_status: &ThreadStatus) -> (out: (&'static str, Color))
    ensures
        out.0@ == status_text(thread_status@),
        out.1 == status_color(thread_status@),
{
    match thread_status {
        ThreadStatus::Active { .. } => ("active", Color::Green),
        ThreadStatus::Idle => ("idle", Color::DarkGray),
        ThreadStatus::NotLoaded => ("unloaded", Color::DarkGray),
        ThreadStatus::SystemError => ("error", Color::Red),
    }
}

fn draw_row(window: &Window, selected_slug: Option<&str>) -> (row: Row)
    ensures
        row@ == row_of(window@, opt_str(selected_slug)),
{
    let (text, color) = status(&window.status);
    let fg = match &window.classification {
        Some(entry) => if entry.attention {
            Color::Indexed(ATTENTION_INDEX)
        } else {
            Color::Reset
        },
        None => Color::Reset,
    };
    let mut spans: Vec<Span> = Vec::new();
    spans.push(Span { text: pad_text(text, 10), fg: color });
    spans.push(Span { text: pad_text(window.slug.as_str(), 20), fg: Color::Cyan });
    spans.push(Span { text: displayed_description(window), fg });
    let selected = match selected_slug {
        Some(slug) => same(slug, window.slug.as_str()),
        None => false,
    };
    let bg = if selected {
        Color::DarkGray
    } else {
        Color::Reset
    };
    let row = Row { spans, bg };
    assert(row@.spans =~= row_of(window@, opt_str(selected_slug)).spans);
    row
}

fn draw_footer(query: Option<&str>, count: usize, offset: usize, page: usize) -> (out: String)
    requires
        offset < usize::MAX,
    ensures
        out@ == footer_of(opt_str(query), count as int, offset as int, page as int),
{
    match query {
        Some(q) => {
            let mut out = cat("find /", q);
            if count == 0 {
                out.append("  no matches  Esc clear");
            } else {
                out.append("  ");
                out.append(decimal_text(count as u64).as_str());
                out.append(" ");
                out.append(
                    if count == 1 {
                        "match"
                    } else {
                        "matches"
                    },
                );
                out.append("  Up/Down select  Enter open  Esc clear");
            }
            out
        },
        None => {
            let keys = "j/k select  g/G first/last  / find  Enter open  q quit";
            if count <= page {
                cat(keys, "")
            } else {
                let to: usize = if offset <= count - page {
                    offset + page
                } else {
                    count
                };
                let mut position = cat("  ", decimal_text((offset + 1) as u64).as_str());
                position.append("-");
                position.append(decimal_text(to as u64).as_str());
                position.append(" of ");
                position.append(decimal_text(count as u64).as_str());
                cat(keys, position.as_str())
            }
        },
    }
}

/// Draws the list on a screen of the given height. The top row holds the title, the bottom row the
/// keys.
pub fn draw(
    windows: &Vec<Window>,
    matches: &Vec<usize>,
    offset: usize,
    selected_slug: Option<&str>,
    query: Option<&str>,
    height: u16,
) -> (screen: Screen)
    requires
        forall|i: int| 0 <= i < matches@.len() ==> (#[trigger] matches@[i]) < windows@.len(),
        offset < usize::MAX,
    ensures
        screen.title@ == title_of(windows@.len()),
        ({
            let seen = visible(matches@, offset as int, rows_of(height));
            &&& screen.rows@.len() == seen.len()
            &&& forall|i: int|
                0 <= i < seen.len() ==> #[trigger] rows_view(screen.rows@)[i] == row_of(
                    windows_view(windows@)[seen[i] as int],
                    opt_str(selected_slug),
                )
        }),
        screen.footer@ == footer_of(
            opt_str(query),
            matches@.len() as int,
            offset as int,
            rows_of(height),
        ),
        screen.footer_fg == Color::DarkGray,
{
    let page = visible_rows(height);
    let title = cat(decimal_text(windows.len() as u64).as_str(), " primary Codex windows");
    let mut rows: Vec<Row> = Vec::new();
    let ghost seen = visible(matches@, offset as int, page as int);
    let mut i: usize = offset;
    while i < matches.len() && rows.len() < page
        invariant
            offset <= i,
            i <= matches.len() || i == offset,
            seen == visible(matches@, offset as int, page as int),
            i - offset == rows@.len(),
            rows@.len() <= page,
            rows@.len() <= seen.len(),
            forall|k: int| 0 <= k < matches@.len() ==> (#[trigger] matches@[k]) < windows@.len(),
            forall|k: int|
                0 <= k < rows@.len() ==> #[trigger] rows_view(rows@)[k] == row_of(
                    windows_view(windows@)[seen[k] as int],
                    opt_str(selected_slug),
                ),
        decreases matches.len() - i,
    {
        assert(matches@[i as int] < windows@.len());
        let row = draw_row(&windows[matches[i]], selected_slug);
        let ghost before = rows@;
        proof {
            assert(seen[i - offset] == matches@[i as int]);
            assert(windows_view(windows@)[matches@[i as int] as int]
                == windows@[matches@[i as int] as int]@);
        }
        rows.push(row);
        assert forall|k: int| 0 <= k < rows@.len() implies #[trigger] rows_view(rows@)[k] == row_of(
            windows_view(windows@)[seen[k] as int],
            opt_str(selected_slug),
        ) by {
            if k < before.len() {
                assert(rows_view(before)[k] == rows_view(rows@)[k]);
            }
        }
        i += 1;
    }
    let footer = draw_footer(query, matches.len(), offset, page);
    Screen { title, rows, footer, footer_fg: Color::DarkGray }
}

} // verus!
