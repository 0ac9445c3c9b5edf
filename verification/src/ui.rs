//! What the screen shows, as plain values: styled texts and where they go.
//!
//! Nothing is drawn here. The functions of this module say which lines make
//! up a log entry, where the entries stand in the area of the log, and what
//! the status bar, the input box and the completion menu hold.

use crate::command::{CommandLog, CommandLogView};
use crate::stream::{stderr_marker, STDERR_MARKER};
use crate::text::{
    char_views, chars_of, field_end, has_prefix, starts_with, string_of, string_of_range, sub_chars,
};
use crate::theme::{Color, Theme};
use vstd::prelude::*;
use vstd::string::StringExecFns;

verus! {

/// A rectangle of cells of the screen.
#[derive(Clone, Copy, Debug, PartialEq, Eq, Structural)]
pub struct Rect {
    pub x: u16,
    pub y: u16,
    pub width: u16,
    pub height: u16,
}

impl Rect {
    /// The rectangle ends within the range of the coordinates.
    pub open spec fn wf(self) -> bool {
        self.x + self.width <= u16::MAX && self.y + self.height <= u16::MAX
    }

    /// The rectangle at `x` and `y` of the given size, cut where it would
    /// leave the range of the coordinates.
    pub fn new(x: u16, y: u16, width: u16, height: u16) -> (r: Rect)
        ensures
            r.wf(),
            r.x == x,
            r.y == y,
            r.width == (if x + width <= u16::MAX {
                width
            } else {
                (u16::MAX - x) as u16
            }),
            r.height == (if y + height <= u16::MAX {
                height
            } else {
                (u16::MAX - y) as u16
            }),
    {
        let width = if width <= u16::MAX - x {
            width
        } else {
            u16::MAX - x
        };
        let height = if height <= u16::MAX - y {
            height
        } else {
            u16::MAX - y
        };
        Rect { x, y, width, height }
    }
}

/// How a text is shown.
#[derive(Clone, Copy, Debug, PartialEq, Eq, Structural)]
pub struct Style {
    pub fg: Option<Color>,
    pub bg: Option<Color>,
    pub bold: bool,
    pub dim: bool,
    pub italic: bool,
    pub slow_blink: bool,
}

impl Style {
    /// The style that changes nothing.
    pub open spec fn plain() -> Style {
        Style { fg: None, bg: None, bold: false, dim: false, italic: false, slow_blink: false }
    }

    /// The style that sets the color of the text.
    pub open spec fn colored(color: Color) -> Style {
        Style { fg: Some(color), ..Style::plain() }
    }

    /// The style that changes nothing.
    pub fn new() -> (s: Style)
        ensures
            s == Style::plain(),
    {
        Style { fg: None, bg: None, bold: false, dim: false, italic: false, slow_blink: false }
    }

    /// This style with the color `color` for the text.
    pub fn fg(self, color: Color) -> (s: Style)
        ensures
            s == (Style { fg: Some(color), ..self }),
    {
        Style { fg: Some(color), ..self }
    }

    /// This style with the color `color` behind the text.
    pub fn bg(self, color: Color) -> (s: Style)
        ensures
            s == (Style { bg: Some(color), ..self }),
    {
        Style { bg: Some(color), ..self }
    }

    /// This style in bold.
    pub fn bold(self) -> (s: Style)
        ensures
            s == (Style { bold: true, ..self }),
    {
        Style { bold: true, ..self }
    }

    /// This style dimmed.
    pub fn dim(self) -> (s: Style)
        ensures
            s == (Style { dim: true, ..self }),
    {
        Style { dim: true, ..self }
    }

    /// This style in italics.
    pub fn italic(self) -> (s: Style)
        ensures
            s == (Style { italic: true, ..self }),
    {
        Style { italic: true, ..self }
    }

    /// This style blinking slowly.
    pub fn slow_blink(self) -> (s: Style)
        ensures
            s == (Style { slow_blink: true, ..self }),
    {
        Style { slow_blink: true, ..self }
    }
}

/// A text in one style.
#[derive(Clone, Debug, PartialEq, Eq)]
pub struct Span {
    pub text: String,
    pub style: Style,
}

/// A [`Span`] as plain values.
pub struct SpanView {
    pub text: Seq<char>,
    pub style: Style,
}

impl View for Span {
    type V = SpanView;

    open spec fn view(&self) -> SpanView {
        SpanView { text: self.text@, style: self.style }
    }
}

/// The spans of a line as plain values.
pub open spec fn line_view(line: Seq<Span>) -> Seq<SpanView> {
    line.map_values(|s: Span| s@)
}

/// The lines of a block as plain values.
pub open spec fn block_view(block: Seq<Vec<Span>>) -> Seq<Seq<SpanView>> {
    block.map_values(|l: Vec<Span>| line_view(l@))
}

/// The text `text` in the style `style`.
pub open spec fn styled(text: Seq<char>, style: Style) -> SpanView {
    SpanView { text, style }
}

/// The text `text` as it is.
pub open spec fn raw(text: Seq<char>) -> SpanView {
    SpanView { text, style: Style::plain() }
}

/// The text `text` in the color `color`.
pub open spec fn tinted(text: Seq<char>, color: Color) -> SpanView {
    SpanView { text, style: Style::colored(color) }
}

/// The text `text` in the style `style`.
pub fn span(text: &str, style: Style) -> (s: Span)
    ensures
        s@ == styled(text@, style),
{
    Span { text: text.to_owned(), style }
}

/// The character for the digit `d`.
pub open spec fn digit_char(d: nat) -> char {
    if d == 0 {
        '0'
    } else if d == 1 {
        '1'
    } else if d == 2 {
        '2'
    } else if d == 3 {
        '3'
    } else if d == 4 {
        '4'
    } else if d == 5 {
        '5'
    } else if d == 6 {
        '6'
    } else if d == 7 {
        '7'
    } else if d == 8 {
        '8'
    } else {
        '9'
    }
}

/// The number `n` written in base 10.
pub open spec fn decimal(n: nat) -> Seq<char>
    decreases n,
{
    if n < 10 {
        seq![digit_char(n)]
    } else {
        decimal(n / 10).push(digit_char(n % 10))
    }
}

/// The number `n` written in base 10, with `-` in front if it is negative.
pub open spec fn signed_decimal(n: int) -> Seq<char> {
    if n < 0 {
        seq!['-'] + decimal((-n) as nat)
    } else {
        decimal(n as nat)
    }
}

fn digit(d: u128) -> (c: char)
    requires
        d < 10,
    ensures
        c == digit_char(d as nat),
{
    if d == 0 {
        '0'
    } else if d == 1 {
        '1'
    } else if d == 2 {
        '2'
    } else if d == 3 {
        '3'
    } else if d == 4 {
        '4'
    } else if d == 5 {
        '5'
    } else if d == 6 {
        '6'
    } else if d == 7 {
        '7'
    } else if d == 8 {
        '8'
    } else {
        '9'
    }
}

/// Writes `n` in base 10 behind `out`.
pub fn push_decimal(out: &mut Vec<char>, n: u128)
    ensures
        final(out)@ == old(out)@ + decimal(n as nat),
    decreases n,
{
    if n >= 10 {
        push_decimal(out, n / 10);
    }
    out.push(digit(n % 10));
}

/// Writes `n` in base 10 behind `out`, with `-` in front if it is negative.
pub fn push_signed(out: &mut Vec<char>, n: i32)
    ensures
        final(out)@ == old(out)@ + signed_decimal(n as int),
{
    if n < 0 {
        out.push('-');
        let magnitude: i64 = -(n as i64);
        push_decimal(out, magnitude as u128);
    } else {
        push_decimal(out, n as u128);
    }
}

/// `line` without a carriage return at its end.
pub open spec fn strip_cr(line: Seq<char>) -> Seq<char> {
    if line.len() > 0 && line.last() == '\r' {
        line.drop_last()
    } else {
        line
    }
}

/// The lines of `s`: its pieces between line feeds, each without the
/// carriage return before its line feed. What follows the last line feed is
/// a line only if it is not empty.
pub open spec fn text_lines(s: Seq<char>) -> Seq<Seq<char>>
    decreases s.len(),
{
    let n = field_end(s, '\n');
    if 0 <= n < s.len() {
        seq![strip_cr(s.take(n))] + text_lines(s.skip(n + 1))
    } else if s.len() > 0 {
        seq![s]
    } else {
        Seq::empty()
    }
}

/// The lines of `s`.
pub fn split_lines(s: &[char]) -> (out: Vec<Vec<char>>)
    ensures
        char_views(out@) == text_lines(s@),
{
    let mut out: Vec<Vec<char>> = Vec::new();
    let mut start: usize = 0;
    let mut i: usize = 0;
    proof {
        assert(s@.skip(0) =~= s@);
    }
    while i < s.len()
        invariant
            start <= i <= s.len(),
            char_views(out@) + text_lines(s@.skip(start as int)) == text_lines(s@),
            field_end(s@.skip(start as int), '\n') == (i - start) + field_end(
                s@.skip(i as int),
                '\n',
            ),
        decreases s.len() - i,
    {
        let ghost tail = s@.skip(start as int);
        if s[i] == '\n' {
            let end = if i > start && s[i - 1] == '\r' {
                i - 1
            } else {
                i
            };
            let line = sub_chars(s, start, end);
            proof {
                let n = field_end(tail, '\n');
                assert(tail.take(n) =~= s@.subrange(start as int, i as int));
                if i > start {
                    assert(tail.take(n).drop_last() =~= s@.subrange(start as int, i - 1));
                }
                assert(tail.skip(n + 1) =~= s@.skip(i + 1));
            }
            out.push(line);
            start = i + 1;
        } else {
            proof {
                assert(s@.skip(i as int).drop_first() =~= s@.skip(i + 1));
            }
        }
        i += 1;
    }
    if start < s.len() {
        let line = sub_chars(s, start, s.len());
        out.push(line);
    }
    out
}

/// The two lines of an empty prompt.
pub open spec fn empty_prompt_block(theme: Theme) -> Seq<Seq<SpanView>> {
    seq![
        seq![tinted("╭───"@, theme.comment), tinted("❯"@, theme.primary)],
        seq![raw(""@)],
    ]
}

/// The first line of a log entry: the command and the directory it ran in.
pub open spec fn header_line(log: CommandLogView, theme: Theme) -> Seq<SpanView> {
    seq![
        tinted("╭───"@, theme.comment),
        tinted("❯ "@, theme.accent),
        styled(log.command, Style { bold: true, ..Style::colored(theme.fg) }),
        raw("  "@),
        tinted("("@, theme.comment),
        styled(log.cwd, Style { dim: true, ..Style::colored(theme.comment) }),
        tinted(")"@, theme.comment),
    ]
}

/// One line of output: a line from standard error without its marker, in
/// italics and the color of errors, and any other line as it is.
pub open spec fn output_line(line: Seq<char>, theme: Theme) -> Seq<SpanView> {
    seq![
        tinted("│  "@, theme.comment),
        if has_prefix(line, stderr_marker()) {
            styled(
                line.skip(stderr_marker().len() as int),
                Style { italic: true, ..Style::colored(theme.error) },
            )
        } else {
            tinted(line, theme.fg)
        },
    ]
}

/// The line that says that the command is running.
pub open spec fn running_line(theme: Theme) -> Seq<SpanView> {
    seq![
        tinted("│  "@, theme.comment),
        styled("⚙️  Running..."@, Style { slow_blink: true, ..Style::colored(theme.warn) }),
    ]
}

/// The text for the exit code.
pub open spec fn exit_text(exit_code: Option<i32>) -> Seq<char> {
    match exit_code {
        Some(code) => "exit="@ + signed_decimal(code as int),
        None => "exit=?"@,
    }
}

/// The line that says how the command ended: its exit code, green for 0,
/// and the time it took if that is known.
pub open spec fn result_line(log: CommandLogView, theme: Theme) -> Seq<SpanView> {
    let head = seq![
        tinted("│  "@, theme.comment),
        tinted("⏱ "@, theme.comment),
        tinted(
            exit_text(log.exit_code),
            if log.exit_code == Some(0i32) {
                Color::Green
            } else {
                theme.error
            },
        ),
    ];
    match log.duration_ms {
        Some(d) => head + seq![raw("  "@), tinted("time="@ + decimal(d as nat) + "ms"@, theme.fg)],
        None => head,
    }
}

/// The lines below the output: that the command is running, or how it
/// ended if that is known.
pub open spec fn status_lines(log: CommandLogView, theme: Theme) -> Seq<Seq<SpanView>> {
    if log.is_running {
        seq![running_line(theme)]
    } else if log.exit_code is Some || log.duration_ms is Some {
        seq![result_line(log, theme)]
    } else {
        Seq::empty()
    }
}

/// The two lines that close a log entry.
pub open spec fn footer_lines(theme: Theme) -> Seq<Seq<SpanView>> {
    seq![seq![tinted("╰─"@, theme.comment)], seq![raw(""@)]]
}

/// The lines that show a log entry. An entry without command and output
/// that is not running is an empty prompt. Any other entry has a header, its
/// output line by line, its status and a footer.
pub open spec fn log_block(log: CommandLogView, theme: Theme) -> Seq<Seq<SpanView>> {
    if log.command.len() == 0 && log.output.len() == 0 && !log.is_running {
        empty_prompt_block(theme)
    } else {
        seq![header_line(log, theme)] + text_lines(log.output).map_values(
            |line: Seq<char>| output_line(line, theme),
        ) + status_lines(log, theme) + footer_lines(theme)
    }
}

fn make_line2(a: Span, b: Span) -> (line: Vec<Span>)
    ensures
        line_view(line@) == seq![a@, b@],
{
    let mut line: Vec<Span> = Vec::new();
    line.push(a);
    line.push(b);
    line
}

fn make_line1(a: Span) -> (line: Vec<Span>)
    ensures
        line_view(line@) == seq![a@],
{
    let mut line: Vec<Span> = Vec::new();
    line.push(a);
    line
}

fn make_output_line(line: &Vec<char>, theme: &Theme) -> (out: Vec<Span>)
    ensures
        line_view(out@) == output_line(line@, *theme),
{
    let marker = chars_of(STDERR_MARKER);
    let content = if starts_with(line.as_slice(), marker.as_slice()) {
        Span {
            text: string_of_range(line.as_slice(), marker.len(), line.len()),
            style: Style::new().fg(theme.error).italic(),
        }
    } else {
        Span { text: string_of(line.as_slice()), style: Style::new().fg(theme.fg) }
    };
    make_line2(span("│  ", Style::new().fg(theme.comment)), content)
}

fn make_result_line(log: &CommandLog, theme: &Theme) -> (out: Vec<Span>)
    ensures
        line_view(out@) == result_line(log@, *theme),
{
    let code_text = match log.exit_code {
        Some(code) => {
            let mut chars = chars_of("exit=");
            push_signed(&mut chars, code);
            string_of(chars.as_slice())
        },
        None => "exit=?".to_owned(),
    };
    let code_color = match log.exit_code {
        Some(code) => if code == 0 {
            Color::Green
        } else {
            theme.error
        },
        None => theme.error,
    };
    let mut out: Vec<Span> = Vec::new();
    out.push(span("│  ", Style::new().fg(theme.comment)));
    out.push(span("⏱ ", Style::new().fg(theme.comment)));
    out.push(Span { text: code_text, style: Style::new().fg(code_color) });
    match log.duration_ms {
        Some(d) => {
            let mut chars = chars_of("time=");
            push_decimal(&mut chars, d);
            let mut text = string_of(chars.as_slice());
            text.append("ms");
            out.push(span("  ", Style::new()));
            out.push(Span { text, style: Style::new().fg(theme.fg) });
        },
        None => {},
    }
    out
}

/// The lines that show a log entry.
pub fn build_log_block(log: &CommandLog, theme: &Theme) -> (lines: Vec<Vec<Span>>)
    ensures
        block_view(lines@) == log_block(log@, *theme),
{
    let mut lines: Vec<Vec<Span>> = Vec::new();
    let is_empty_prompt = log.command.as_str().unicode_len() == 0
        && log.output.as_str().unicode_len() == 0;
    if is_empty_prompt && !log.is_running {
        lines.push(
            make_line2(
                span("╭───", Style::new().fg(theme.comment)),
                span("❯", Style::new().fg(theme.primary)),
            ),
        );
        lines.push(make_line1(span("", Style::new())));
        return lines;
    }
    let mut header: Vec<Span> = Vec::new();
    header.push(span("╭───", Style::new().fg(theme.comment)));
    header.push(span("❯ ", Style::new().fg(theme.accent)));
    header.push(span(log.command.as_str(), Style::new().fg(theme.fg).bold()));
    header.push(span("  ", Style::new()));
    header.push(span("(", Style::new().fg(theme.comment)));
    header.push(span(log.cwd.as_str(), Style::new().fg(theme.comment).dim()));
    header.push(span(")", Style::new().fg(theme.comment)));
    assert(line_view(header@) =~= header_line(log@, *theme));
    lines.push(header);
    let ghost head = seq![header_line(log@, *theme)];
    let output = split_lines(chars_of(log.output.as_str()).as_slice());
    let ghost body = text_lines(log@.output).map_values(
        |line: Seq<char>| output_line(line, *theme),
    );
    let mut i: usize = 0;
    while i < output.len()
        invariant
            i <= output.len(),
            char_views(output@) == text_lines(log@.output),
            body == text_lines(log@.output).map_values(
                |line: Seq<char>| output_line(line, *theme),
            ),
            head == seq![header_line(log@, *theme)],
            block_view(lines@) == head + body.take(i as int),
        decreases output.len() - i,
    {
        let line = make_output_line(&output[i], theme);
        proof {
            assert(block_view(lines@.push(line)) =~= block_view(lines@).push(line_view(line@)));
        }
        lines.push(line);
        i += 1;
    }
    proof {
        assert(body.take(output.len() as int) =~= body);
    }
    if log.is_running {
        let line = make_line2(
            span("│  ", Style::new().fg(theme.comment)),
            span("⚙️  Running...", Style::new().fg(theme.warn).slow_blink()),
        );
        proof {
            assert(line_view(line@) =~= running_line(*theme));
        }
        lines.push(line);
    } else if log.exit_code.is_some() || log.duration_ms.is_some() {
        let line = make_result_line(log, theme);
        lines.push(line);
    }
    let foot = make_line1(span("╰─", Style::new().fg(theme.comment)));
    let blank = make_line1(span("", Style::new()));
    lines.push(foot);
    lines.push(blank);
    lines
}

} // verus!
