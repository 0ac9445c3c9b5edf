//! Where things go on the screen: the entries of the log in their area, the
//! scrollbar, the status bar, the input box, the completion menu and the
//! cursor.

use crate::state::{State, StateView};
use crate::text::{chars_of, string_of, string_views};
use crate::theme::{Color, Theme};
use crate::ui::{
    block_view, build_log_block, decimal, line_view, log_block, push_decimal, raw, span, styled, tinted,
    Rect, Span, SpanView, Style,
};
use vstd::prelude::*;
use vstd::string::StringExecFns;

verus! {

/// The lines of a log entry and the rectangle that shows them.
#[derive(Clone, Debug, PartialEq, Eq)]
pub struct PlacedBlock {
    /// Which entry of the log this is.
    pub log_index: usize,
    pub area: Rect,
    /// The lines that the rectangle shows, one for each of its rows.
    pub lines: Vec<Vec<Span>>,
}

/// A [`PlacedBlock`] as plain values.
pub struct PlacedBlockView {
    pub log_index: usize,
    pub area: Rect,
    pub lines: Seq<Seq<SpanView>>,
}

impl View for PlacedBlock {
    type V = PlacedBlockView;

    open spec fn view(&self) -> PlacedBlockView {
        PlacedBlockView { log_index: self.log_index, area: self.area, lines: block_view(self.lines@) }
    }
}

/// Placed blocks as plain values, in order.
pub open spec fn placed_views(blocks: Seq<PlacedBlock>) -> Seq<PlacedBlockView> {
    blocks.map_values(|b: PlacedBlock| b@)
}

/// `block` with every text in the color `color`.
pub open spec fn recolored(block: Seq<Seq<SpanView>>, color: Color) -> Seq<Seq<SpanView>> {
    block.map_values(
        |line: Seq<SpanView>|
            line.map_values(
                |s: SpanView| SpanView { text: s.text, style: Style { fg: Some(color), ..s.style } },
            ),
    )
}

/// The entry of the log that stands lowest on the screen: the last entry,
/// or as many entries before it as the log is scrolled back, but not before
/// the first.
pub open spec fn first_shown(s: StateView) -> int {
    if s.command_log.len() - 1 - s.scroll_offset > 0 {
        s.command_log.len() - 1 - s.scroll_offset
    } else {
        0
    }
}

/// The lines of the entry `i` as they are shown: while the log is scrolled
/// back, the lowest entry stands out in the accent color.
pub open spec fn shown_block(s: StateView, i: int) -> Seq<Seq<SpanView>> {
    let block = log_block(s.command_log[i], s.theme);
    if s.scroll_offset > 0 && i == first_shown(s) {
        recolored(block, s.theme.accent)
    } else {
        block
    }
}

/// Where the entries from `i` back to the first go when `remaining` rows of
/// `inner` are free above what is placed already. Each entry stands right
/// above the one after it. An entry that is higher than what is free shows
/// its last lines in the rows that are free, and ends the placing.
pub open spec fn placed_from(s: StateView, i: int, remaining: int, inner: Rect) -> Seq<
    PlacedBlockView,
>
    decreases i + 1,
{
    if i < 0 || i >= s.command_log.len() {
        Seq::empty()
    } else {
        let block = shown_block(s, i);
        let h = block.len();
        if h <= remaining {
            seq![
                PlacedBlockView {
                    log_index: i as usize,
                    area: Rect {
                        x: inner.x,
                        y: (inner.y + remaining - h) as u16,
                        width: inner.width,
                        height: h as u16,
                    },
                    lines: block,
                },
            ] + placed_from(s, i - 1, remaining - h as int, inner)
        } else if remaining == 0 {
            Seq::empty()
        } else {
            seq![
                PlacedBlockView {
                    log_index: i as usize,
                    area: Rect {
                        x: inner.x,
                        y: inner.y,
                        width: inner.width,
                        height: remaining as u16,
                    },
                    lines: block.skip(h - remaining),
                },
            ]
        }
    }
}

/// Where the entries of the log go in the area `inner`, from the bottom up.
pub open spec fn output_log(s: StateView, inner: Rect) -> Seq<PlacedBlockView> {
    placed_from(s, first_shown(s), inner.height as int, inner)
}

fn recolor_line(line: &Vec<Span>, color: Color) -> (out: Vec<Span>)
    ensures
        line_view(out@) == line_view(line@).map_values(
            |s: SpanView| SpanView { text: s.text, style: Style { fg: Some(color), ..s.style } },
        ),
{
    let ghost wanted = line_view(line@).map_values(
        |s: SpanView| SpanView { text: s.text, style: Style { fg: Some(color), ..s.style } },
    );
    let mut out: Vec<Span> = Vec::new();
    let mut i: usize = 0;
    while i < line.len()
        invariant
            i <= line.len(),
            wanted == line_view(line@).map_values(
                |s: SpanView|
                    SpanView { text: s.text, style: Style { fg: Some(color), ..s.style } },
            ),
            line_view(out@) == wanted.take(i as int),
        decreases line.len() - i,
    {
        let s = Span { text: line[i].text.clone(), style: line[i].style.fg(color) };
        proof {
            assert(line_view(out@.push(s)) =~= line_view(out@).push(s@));
        }
        out.push(s);
        i += 1;
    }
    out
}

fn recolor(block: &Vec<Vec<Span>>, color: Color) -> (out: Vec<Vec<Span>>)
    ensures
        block_view(out@) == recolored(block_view(block@), color),
{
    let ghost wanted = recolored(block_view(block@), color);
    let mut out: Vec<Vec<Span>> = Vec::new();
    let mut i: usize = 0;
    while i < block.len()
        invariant
            i <= block.len(),
            wanted == recolored(block_view(block@), color),
            block_view(out@) == wanted.take(i as int),
        decreases block.len() - i,
    {
        let line = recolor_line(&block[i], color);
        proof {
            assert(block_view(out@.push(line)) =~= block_view(out@).push(line_view(line@)));
        }
        out.push(line);
        i += 1;
    }
    out
}

/// Where the entries of the log go in the area `inner`, from the bottom up.
pub fn render_output_log(state: &State, inner: Rect) -> (out: Vec<PlacedBlock>)
    requires
        inner.wf(),
    ensures
        placed_views(out@) == output_log(state@, inner),
{
    let ghost s = state@;
    let total = state.command_log.len();
    let mut out: Vec<PlacedBlock> = Vec::new();
    if total == 0 {
        return out;
    }
    let start: usize = if total - 1 > state.scroll_offset {
        total - 1 - state.scroll_offset
    } else {
        0
    };
    let mut i: usize = start;
    let mut remaining: u16 = inner.height;
    let mut done = false;
    let ghost all = placed_from(s, start as int, inner.height as int, inner);
    while !done
        invariant
            s == state@,
            total == state.command_log.len(),
            start == first_shown(s),
            inner.wf(),
            i < total,
            i <= start,
            remaining <= inner.height,
            all == placed_from(s, start as int, inner.height as int, inner),
            !done ==> placed_views(out@) + placed_from(s, i as int, remaining as int, inner)
                == all,
            done ==> placed_views(out@) == all,
        decreases
                (if done {
                    0int
                } else {
                    i + 1
                }),
    {
        let plain = build_log_block(&state.command_log[i], &state.theme);
        let block = if state.scroll_offset > 0 && i == start {
            recolor(&plain, state.theme.accent)
        } else {
            plain
        };
        let h = block.len();
        if h <= remaining as usize {
            remaining = remaining - h as u16;
            let placed = PlacedBlock {
                log_index: i,
                area: Rect { x: inner.x, y: inner.y + remaining, width: inner.width, height: h as u16 },
                lines: block,
            };
            proof {
                assert(placed_views(out@.push(placed)) + placed_from(
                    s,
                    i - 1,
                    remaining as int,
                    inner,
                ) =~= all);
            }
            out.push(placed);
            if i == 0 {
                done = true;
            } else {
                i = i - 1;
            }
        } else {
            if remaining > 0 {
                let mut block = block;
                let ghost whole = block_view(block@);
                let visible = block.split_off(h - remaining as usize);
                let placed = PlacedBlock {
                    log_index: i,
                    area: Rect { x: inner.x, y: inner.y, width: inner.width, height: remaining },
                    lines: visible,
                };
                proof {
                    assert(block_view(visible@) =~= whole.skip(h - remaining));
                    assert(placed_views(out@.push(placed)) =~= all);
                }
                out.push(placed);
            }
            done = true;
        }
    }
    out
}

/// The title above the log.
pub const LOG_TITLE: &'static str = " [[[ CONSOLE LOG ]]] ";

/// The line above the log: its title and the style of the border it stands
/// in.
#[derive(Clone, Debug, PartialEq, Eq)]
pub struct LogHeader {
    pub title: Span,
    pub border_style: Style,
}

/// The line above the log in the colors of `theme`.
pub fn render_log_header(theme: &Theme) -> (header: LogHeader)
    ensures
        header.title@ == styled(LOG_TITLE@, Style { bold: true, ..Style::colored(theme.primary) }),
        header.border_style == Style::colored(theme.comment),
{
    LogHeader {
        title: span(LOG_TITLE, Style::new().fg(theme.primary).bold()),
        border_style: Style::new().fg(theme.comment),
    }
}

/// One cell of the thumb of the scrollbar: the symbol of the configuration
/// in the primary color.
pub fn render_thumb(state: &State) -> (thumb: Span)
    ensures
        thumb@ == tinted(state@.ui.scrollbar_thumb, state@.theme.primary),
{
    span(state.ui.scrollbar_thumb.as_str(), Style::new().fg(state.theme.primary))
}

/// The scrollbar of the log: its track and the thumb on it.
#[derive(Clone, Copy, Debug, PartialEq, Eq, Structural)]
pub struct Scrollbar {
    pub track: Rect,
    /// The first row of the thumb.
    pub thumb_y: u16,
    /// How many rows the thumb covers.
    pub thumb_height: u16,
}

/// `a` or `b`, whichever is smaller.
pub open spec fn least(a: int, b: int) -> int {
    if a <= b {
        a
    } else {
        b
    }
}

/// The scrollbar for a log of `total` entries that is scrolled back by
/// `scroll_offset`, in the column `track_x` beside the area `inner`. There
/// is none for an empty log. The thumb covers a quarter of the rows, and at
/// least one. It stands at the top while the log is not scrolled, and moves
/// down in proportion until it reaches the bottom when the log is scrolled
/// back to its first entry.
pub open spec fn scrollbar_of(total: int, scroll_offset: int, inner: Rect, track_x: u16) -> Option<
    Scrollbar,
> {
    if total <= 0 {
        None
    } else {
        let thumb = if inner.height / 4 >= 1 {
            inner.height as int / 4
        } else {
            1
        };
        let max_scroll = least(total - 1, u16::MAX as int);
        let scroll = least(scroll_offset, max_scroll);
        let room = if inner.height >= thumb {
            inner.height - thumb
        } else {
            0
        };
        let top = if max_scroll == 0 {
            0
        } else {
            room * scroll / max_scroll
        };
        Some(
            Scrollbar {
                track: Rect { x: track_x, y: inner.y, width: 1, height: inner.height },
                thumb_y: (inner.y + top) as u16,
                thumb_height: thumb as u16,
            },
        )
    }
}

/// The scrollbar of the log in the column `track_x` beside the area
/// `inner`.
pub fn scrollbar(state: &State, inner: Rect, track_x: u16) -> (bar: Option<Scrollbar>)
    requires
        inner.wf(),
    ensures
        bar == scrollbar_of(
            state@.command_log.len() as int,
            state@.scroll_offset as int,
            inner,
            track_x,
        ),
{
    let total = state.command_log.len();
    if total == 0 {
        return None;
    }
    let thumb: u16 = if inner.height / 4 >= 1 {
        inner.height / 4
    } else {
        1
    };
    let max_scroll: u16 = if total - 1 <= u16::MAX as usize {
        (total - 1) as u16
    } else {
        u16::MAX
    };
    let scroll: u16 = if state.scroll_offset <= max_scroll as usize {
        state.scroll_offset as u16
    } else {
        max_scroll
    };
    let room: u16 = if inner.height >= thumb {
        inner.height - thumb
    } else {
        0
    };
    let top: u16 = if max_scroll == 0 {
        0
    } else {
        proof {
            assert(room * scroll <= room * max_scroll) by (nonlinear_arith)
                requires
                    0 <= scroll <= max_scroll,
                    0 <= room,
            ;
            assert(room * scroll <= 65535 * 65535) by (nonlinear_arith)
                requires
                    0 <= scroll <= 65535,
                    0 <= room <= 65535,
            ;
            assert((room * scroll) / (max_scroll as int) <= room) by (nonlinear_arith)
                requires
                    room * scroll <= room * max_scroll,
                    max_scroll > 0,
                    room >= 0,
                    scroll >= 0,
            ;
            assert((room * scroll) / (max_scroll as int) >= 0) by (nonlinear_arith)
                requires
                    max_scroll > 0,
                    room >= 0,
                    scroll >= 0,
            ;
        }
        ((room as u32 * scroll as u32) / max_scroll as u32) as u16
    };
    Some(
        Scrollbar {
            track: Rect { x: track_x, y: inner.y, width: 1, height: inner.height },
            thumb_y: inner.y + top,
            thumb_height: thumb,
        },
    )
}

/// The number of the entry that the status bar names: the number of
/// entries while the log is not scrolled, and the number of the lowest entry
/// on the screen while it is.
pub open spec fn status_position(total: int, scroll_offset: int) -> int {
    if scroll_offset > 0 {
        (if total - 1 - scroll_offset > 0 {
            total - 1 - scroll_offset
        } else {
            0
        }) + 1
    } else {
        total
    }
}

/// What the status bar says of the branch.
pub open spec fn git_text(branch: Option<Seq<char>>) -> Seq<char> {
    match branch {
        Some(b) => " on \u{e0a0} "@ + b,
        None => Seq::empty(),
    }
}

/// The left half of the status bar: the name of the shell, its version and
/// the branch.
pub open spec fn status_left(s: StateView, version: Seq<char>) -> Seq<SpanView> {
    seq![
        styled(
            " HALO "@,
            Style { fg: Some(s.theme.bg), bg: Some(s.theme.primary), bold: true, ..Style::plain() },
        ),
        tinted(" v"@ + version + git_text(s.git_branch) + " "@, s.theme.accent),
    ]
}

/// The right half of the status bar: the directory, and which entry of how
/// many the log shows.
pub open spec fn status_right(s: StateView) -> Seq<SpanView> {
    seq![
        tinted("📁 "@, s.theme.accent),
        tinted(s.cwd, s.theme.accent),
        raw("  |  "@),
        tinted("📄 "@, s.theme.accent),
        tinted(
            decimal(status_position(s.command_log.len() as int, s.scroll_offset as int) as nat)
                + "/"@ + decimal(s.command_log.len()) + " "@,
            s.theme.accent,
        ),
    ]
}

/// The two halves of the status bar.
#[derive(Clone, Debug, PartialEq, Eq)]
pub struct StatusBar {
    pub left: Vec<Span>,
    pub right: Vec<Span>,
}

/// The status bar for the shell of the version `version`.
pub fn render_status_bar(state: &State, version: &str) -> (bar: StatusBar)
    ensures
        line_view(bar.left@) == status_left(state@, version@),
        line_view(bar.right@) == status_right(state@),
{
    let theme = state.theme;
    let mut about = " v".to_owned();
    about.append(version);
    match &state.git_branch {
        Some(b) => {
            about.append(" on \u{e0a0} ");
            about.append(b.as_str());
            assert(about@ =~= " v"@ + version@ + git_text(state@.git_branch));
        },
        None => {
        },
    }
    about.append(" ");
    let mut left: Vec<Span> = Vec::new();
    left.push(span(" HALO ", Style::new().fg(theme.bg).bg(theme.primary).bold()));
    left.push(Span { text: about, style: Style::new().fg(theme.accent) });
    let total = state.command_log.len();
    let pos: usize = if state.scroll_offset > 0 {
        if total > 0 && total - 1 > state.scroll_offset {
            total - 1 - state.scroll_offset + 1
        } else {
            1
        }
    } else {
        total
    };
    let mut count: Vec<char> = Vec::new();
    push_decimal(&mut count, pos as u128);
    count.push('/');
    push_decimal(&mut count, total as u128);
    count.push(' ');
    let ghost wanted = decimal(
        status_position(state@.command_log.len() as int, state@.scroll_offset as int) as nat,
    ) + "/"@ + decimal(state@.command_log.len()) + " "@;
    proof {
        reveal_strlit("/");
        reveal_strlit(" ");
        assert(count@ =~= wanted);
    }
    let mut right: Vec<Span> = Vec::new();
    right.push(span("📁 ", Style::new().fg(theme.accent)));
    right.push(span(state.cwd.as_str(), Style::new().fg(theme.accent)));
    right.push(span("  |  ", Style::new()));
    right.push(span("📄 ", Style::new().fg(theme.accent)));
    right.push(Span { text: string_of(count.as_slice()), style: Style::new().fg(theme.accent) });
    StatusBar { left, right }
}

/// The line that decorates the title of the input box.
pub const DECOR: &'static str = "────────────";

/// What the input box holds.
#[derive(Clone, Debug, PartialEq, Eq)]
pub struct InputBox {
    /// The prompt and the line.
    pub text: Vec<Span>,
    /// The style of the box.
    pub style: Style,
    /// The style of its border.
    pub border_style: Style,
    /// Its title.
    pub title: Vec<Span>,
}

/// [`InputBox`] as plain values.
pub struct InputBoxView {
    pub text: Seq<SpanView>,
    pub style: Style,
    pub border_style: Style,
    pub title: Seq<SpanView>,
}

impl View for InputBox {
    type V = InputBoxView;

    open spec fn view(&self) -> InputBoxView {
        InputBoxView {
            text: line_view(self.text@),
            style: self.style,
            border_style: self.border_style,
            title: line_view(self.title@),
        }
    }
}

/// The command of the entry that is previewed, or nothing if there is no
/// such entry.
pub open spec fn previewed_command(s: StateView) -> Seq<char> {
    if first_shown(s) < s.command_log.len() {
        s.command_log[first_shown(s)].command
    } else {
        Seq::empty()
    }
}

/// What the input box holds. While the log is scrolled back it previews
/// the command of the lowest entry on the screen, in the accent color. Else
/// it holds the input line, under the name of the user.
pub open spec fn input_box(s: StateView) -> InputBoxView {
    if s.scroll_offset > 0 {
        InputBoxView {
            text: seq![raw(s.ui.prompt + "  "@), raw(previewed_command(s))],
            style: Style { bold: true, ..Style::colored(s.theme.accent) },
            border_style: Style::colored(s.theme.accent),
            title: seq![
                tinted(DECOR@, s.theme.accent),
                styled(
                    "[[[ HISTORY PREVIEW ]]]"@,
                    Style { bold: true, ..Style::colored(s.theme.primary) },
                ),
            ],
        }
    } else {
        InputBoxView {
            text: seq![
                styled(
                    s.ui.prompt + "  "@,
                    Style { bold: true, ..Style::colored(s.theme.primary) },
                ),
                tinted(s.input_buffer, s.theme.fg),
            ],
            style: Style::plain(),
            border_style: Style::colored(s.theme.primary),
            title: seq![
                tinted(DECOR@, s.theme.primary),
                styled(
                    "[ "@ + s.username + " ]"@,
                    Style { bold: true, ..Style::colored(s.theme.accent) },
                ),
            ],
        }
    }
}

/// What the input box holds.
pub fn render_input_box(state: &State) -> (b: InputBox)
    ensures
        b@ == input_box(state@),
{
    let theme = state.theme;
    let mut prompt = state.ui.prompt.clone();
    prompt.append("  ");
    let mut text: Vec<Span> = Vec::new();
    let mut title: Vec<Span> = Vec::new();
    if state.scroll_offset > 0 {
        let total = state.command_log.len();
        let index: usize = if total > 0 && total - 1 > state.scroll_offset {
            total - 1 - state.scroll_offset
        } else {
            0
        };
        let command = if index < total {
            state.command_log[index].command.clone()
        } else {
            String::new()
        };
        text.push(Span { text: prompt, style: Style::new() });
        text.push(Span { text: command, style: Style::new() });
        title.push(span(DECOR, Style::new().fg(theme.accent)));
        title.push(span("[[[ HISTORY PREVIEW ]]]", Style::new().fg(theme.primary).bold()));
        let b = InputBox {
            text,
            style: Style::new().fg(theme.accent).bold(),
            border_style: Style::new().fg(theme.accent),
            title,
        };
        assert(b@.text =~= input_box(state@).text);
        assert(b@.title =~= input_box(state@).title);
        b
    } else {
        let mut name = "[ ".to_owned();
        name.append(state.username.as_str());
        name.append(" ]");
        text.push(Span { text: prompt, style: Style::new().fg(theme.primary).bold() });
        text.push(span(state.input_buffer.as_str(), Style::new().fg(theme.fg)));
        title.push(span(DECOR, Style::new().fg(theme.primary)));
        title.push(Span { text: name, style: Style::new().fg(theme.accent).bold() });
        let b = InputBox {
            text,
            style: Style::new(),
            border_style: Style::new().fg(theme.primary),
            title,
        };
        assert(b@.text =~= input_box(state@).text);
        assert(b@.title =~= input_box(state@).title);
        b
    }
}

/// The widest that the completion menu gets.
pub const POPUP_WIDTH: u16 = 80;

/// The highest that the completion menu gets, with its border.
pub const POPUP_HEIGHT: usize = 10;

/// The completion menu: where it stands, its entries and which is selected.
#[derive(Clone, Debug, PartialEq, Eq)]
pub struct Popup {
    pub area: Rect,
    pub items: Vec<Vec<Span>>,
    pub selected: usize,
    /// The title of the menu, which stands in the middle of its border.
    pub title: String,
    /// The style of its double border.
    pub border_style: Style,
    /// The style of the selected entry.
    pub highlight_style: Style,
    /// What stands before the selected entry.
    pub highlight_symbol: String,
}

/// The title of the completion menu.
pub const POPUP_TITLE: &'static str = "\u{1f4a1} Suggestions";

/// What stands before the selected entry of the completion menu.
pub const POPUP_MARK: &'static str = "\u{25b6} ";

/// The entry of the menu for `suggestion`: a folder before what ends in
/// `/`, a sheet before anything else.
pub open spec fn popup_item(suggestion: Seq<char>) -> Seq<SpanView> {
    seq![
        raw(
            if suggestion.len() > 0 && suggestion.last() == '/' {
                "📁"@
            } else {
                "📄"@
            },
        ),
        raw(" "@),
        raw(suggestion),
    ]
}

/// Where the menu stands: right above the area `area` of the input box, as
/// wide as it but not wider than `POPUP_WIDTH`, and high enough for the
/// suggestions and the border but not higher than `POPUP_HEIGHT`.
pub open spec fn popup_area(count: int, area: Rect) -> Rect {
    let height = least(count + 2, POPUP_HEIGHT as int);
    Rect {
        x: area.x,
        y: if area.y >= height {
            (area.y - height) as u16
        } else {
            0
        },
        width: least(area.width as int, POPUP_WIDTH as int) as u16,
        height: height as u16,
    }
}

/// `popup` is the completion menu of the state `s` above the area `area` of
/// the input box: its place, one item for each suggestion, the selected
/// one, its title and mark, and the colours of the theme.
pub open spec fn is_menu_of(popup: Popup, s: StateView, area: Rect) -> bool {
    &&& popup.area == popup_area(s.completion.suggestions.len() as int, area)
    &&& block_view(popup.items@) == s.completion.suggestions.map_values(
        |suggestion: Seq<char>| popup_item(suggestion),
    )
    &&& popup.selected == s.completion.selected_index
    &&& popup.title@ == POPUP_TITLE@
    &&& popup.border_style == Style::colored(s.theme.warn)
    &&& popup.highlight_style == (Style {
        fg: Some(s.theme.bg),
        bg: Some(s.theme.primary),
        bold: true,
        ..Style::plain()
    })
    &&& popup.highlight_symbol@ == POPUP_MARK@
}

/// The completion menu above the area `area` of the input box.
pub fn render_completion_popup(state: &State, area: Rect) -> (popup: Popup)
    ensures
        is_menu_of(popup, state@, area),
{
    let suggestions = &state.completion_state.suggestions;
    let ghost texts = string_views(suggestions@);
    let ghost wanted = texts.map_values(|suggestion: Seq<char>| popup_item(suggestion));
    let mut items: Vec<Vec<Span>> = Vec::new();
    let mut i: usize = 0;
    while i < suggestions.len()
        invariant
            i <= suggestions.len(),
            texts == string_views(suggestions@),
            wanted == texts.map_values(|suggestion: Seq<char>| popup_item(suggestion)),
            block_view(items@) == wanted.take(i as int),
        decreases suggestions.len() - i,
    {
        let chars = chars_of(suggestions[i].as_str());
        let icon = if chars.len() > 0 && chars[chars.len() - 1] == '/' {
            "📁"
        } else {
            "📄"
        };
        let mut item: Vec<Span> = Vec::new();
        item.push(span(icon, Style::new()));
        item.push(span(" ", Style::new()));
        item.push(span(suggestions[i].as_str(), Style::new()));
        proof {
            assert(line_view(item@) =~= popup_item(texts[i as int]));
            assert(block_view(items@.push(item)) =~= block_view(items@).push(line_view(item@)));
        }
        items.push(item);
        i += 1;
    }
    let count = suggestions.len();
    let height: u16 = if count >= POPUP_HEIGHT - 2 {
        POPUP_HEIGHT as u16
    } else {
        (count + 2) as u16
    };
    let y: u16 = if area.y >= height {
        area.y - height
    } else {
        0
    };
    let width: u16 = if area.width <= POPUP_WIDTH {
        area.width
    } else {
        POPUP_WIDTH
    };
    proof {
        assert(block_view(items@) =~= state@.completion.suggestions.map_values(
            |suggestion: Seq<char>| popup_item(suggestion),
        ));
    }
    Popup {
        area: Rect { x: area.x, y, width, height },
        items,
        selected: state.completion_state.selected_index,
        title: POPUP_TITLE.to_owned(),
        border_style: Style::new().fg(state.theme.warn),
        highlight_style: Style::new().bg(state.theme.primary).fg(state.theme.bg).bold(),
        highlight_symbol: POPUP_MARK.to_owned(),
    }
}

/// How many cells the prompt takes in the input box.
pub const PROMPT_WIDTH: u16 = 3;

/// The cell of the cursor in the area `inner` within the border of the
/// input box: behind the prompt, as many cells further as the cursor's
/// offset in the input line has bytes, and no further than the last column.
/// There is no cursor while the log is scrolled back.
pub open spec fn cursor_of(s: StateView, inner: Rect) -> Option<(u16, u16)> {
    if s.scroll_offset == 0 {
        Some(
            (
                least(inner.x + PROMPT_WIDTH + s.cursor_position, u16::MAX as int) as u16,
                inner.y,
            ),
        )
    } else {
        None
    }
}

/// The cell of the cursor in the area `inner` within the border of the
/// input box.
pub fn cursor_cell(state: &State, inner: Rect) -> (cell: Option<(u16, u16)>)
    ensures
        cell == cursor_of(state@, inner),
{
    if state.scroll_offset == 0 {
        let base: u32 = inner.x as u32 + PROMPT_WIDTH as u32;
        let room: u32 = u16::MAX as u32 - if base <= u16::MAX as u32 {
            base
        } else {
            u16::MAX as u32
        };
        let x: u16 = if base > u16::MAX as u32 {
            u16::MAX
        } else if state.cursor_position >= room as usize {
            u16::MAX
        } else {
            (base + state.cursor_position as u32) as u16
        };
        Some((x, inner.y))
    } else {
        None
    }
}

/// The areas of the screen, as the terminal lays them out.
#[derive(Clone, Copy, Debug, PartialEq, Eq, Structural)]
pub struct ScreenAreas {
    /// The area of the log within its border.
    pub log_inner: Rect,
    /// The column of the scrollbar.
    pub track_x: u16,
    /// The area of the input box.
    pub input: Rect,
    /// The area of the input box within its border.
    pub input_inner: Rect,
}

/// Everything that the screen shows.
#[derive(Clone, Debug, PartialEq, Eq)]
pub struct Screen {
    pub log_header: LogHeader,
    pub log: Vec<PlacedBlock>,
    pub scrollbar: Option<Scrollbar>,
    pub thumb: Span,
    pub status: StatusBar,
    pub input: InputBox,
    /// The completion menu, while it is open.
    pub popup: Option<Popup>,
    /// Where the cursor stands, while the log is not scrolled back.
    pub cursor: Option<(u16, u16)>,
}

/// Everything that the screen shows for `state`, in the areas `areas`, for
/// the shell of the version `version`.
pub fn draw(state: &State, areas: &ScreenAreas, version: &str) -> (screen: Screen)
    requires
        areas.log_inner.wf(),
    ensures
        screen.log_header.title@ == styled(
            LOG_TITLE@,
            Style { bold: true, ..Style::colored(state@.theme.primary) },
        ),
        screen.log_header.border_style == Style::colored(state@.theme.comment),
        placed_views(screen.log@) == output_log(state@, areas.log_inner),
        screen.scrollbar == scrollbar_of(
            state@.command_log.len() as int,
            state@.scroll_offset as int,
            areas.log_inner,
            areas.track_x,
        ),
        screen.thumb@ == tinted(state@.ui.scrollbar_thumb, state@.theme.primary),
        line_view(screen.status.left@) == status_left(state@, version@),
        line_view(screen.status.right@) == status_right(state@),
        screen.input@ == input_box(state@),
        screen.popup is Some <==> state@.completion.active,
        screen.popup matches Some(popup) ==> is_menu_of(popup, state@, areas.input),
        screen.cursor == cursor_of(state@, areas.input_inner),
{
    let popup = if state.completion_state.active {
        Some(render_completion_popup(state, areas.input))
    } else {
        None
    };
    Screen {
        log_header: render_log_header(&state.theme),
        log: render_output_log(state, areas.log_inner),
        scrollbar: scrollbar(state, areas.log_inner, areas.track_x),
        thumb: render_thumb(state),
        status: render_status_bar(state, version),
        input: render_input_box(state),
        popup,
        cursor: cursor_cell(state, areas.input_inner),
    }
}

} // verus!
