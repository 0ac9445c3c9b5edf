use halo::layout::{
    cursor_cell, draw, ScreenAreas, render_completion_popup, render_input_box, render_log_header, render_output_log,
    render_status_bar, render_thumb, scrollbar, LogHeader, PlacedBlock, Scrollbar, DECOR, LOG_TITLE,
    POPUP_HEIGHT, POPUP_MARK, POPUP_TITLE, POPUP_WIDTH, PROMPT_WIDTH,
};
use halo::state::State;
use halo::theme::{Color, Theme};
use halo::ui::{build_log_block, Rect, Span, Style};

fn new_state() -> State {
    State::new("/work".to_string(), "ada".to_string())
}

/// A state whose log holds `n` finished entries of 3 rows each: a header and
/// a footer of two lines.
fn state_with_entries(n: usize) -> State {
    let mut state = new_state();
    state.command_log.clear();
    for i in 0..n {
        state.add_log_entry(format!("c{}", i), "/".to_string());
        state.finish_last_log();
    }
    state
}

fn plain() -> Style {
    Style { fg: None, bg: None, bold: false, dim: false, italic: false, slow_blink: false }
}

fn colored(color: Color) -> Style {
    Style { fg: Some(color), ..plain() }
}

fn text(t: &str, style: Style) -> Span {
    Span { text: t.to_string(), style }
}

fn rect(x: u16, y: u16, width: u16, height: u16) -> Rect {
    Rect { x, y, width, height }
}

fn block_of(state: &State, i: usize) -> Vec<Vec<Span>> {
    build_log_block(&state.command_log[i], &state.theme)
}

fn recolored(block: Vec<Vec<Span>>, color: Color) -> Vec<Vec<Span>> {
    block
        .into_iter()
        .map(|line| {
            line.into_iter()
                .map(|s| Span { text: s.text, style: Style { fg: Some(color), ..s.style } })
                .collect()
        })
        .collect()
}

#[test]
fn entries_stand_above_each_other_from_the_bottom() {
    let state = state_with_entries(3);
    let inner = rect(2, 10, 40, 9);
    let placed = render_output_log(&state, inner);
    assert_eq!(
        placed,
        vec![
            PlacedBlock { log_index: 2, area: rect(2, 16, 40, 3), lines: block_of(&state, 2) },
            PlacedBlock { log_index: 1, area: rect(2, 13, 40, 3), lines: block_of(&state, 1) },
            PlacedBlock { log_index: 0, area: rect(2, 10, 40, 3), lines: block_of(&state, 0) },
        ]
    );
}

#[test]
fn room_that_is_left_stays_empty_at_the_top() {
    let state = state_with_entries(2);
    let placed = render_output_log(&state, rect(0, 1, 80, 20));
    assert_eq!(placed.len(), 2);
    assert_eq!(placed[0].area, rect(0, 18, 80, 3));
    assert_eq!(placed[1].area, rect(0, 15, 80, 3));
}

#[test]
fn an_entry_that_does_not_fit_shows_its_last_lines() {
    let state = state_with_entries(3);
    let placed = render_output_log(&state, rect(0, 5, 30, 5));
    assert_eq!(placed.len(), 2);
    assert_eq!(placed[0].area, rect(0, 7, 30, 3));
    assert_eq!(placed[0].log_index, 2);
    assert_eq!(placed[1].log_index, 1);
    assert_eq!(placed[1].area, rect(0, 5, 30, 2));
    assert_eq!(placed[1].lines, block_of(&state, 1)[1..].to_vec());
}

#[test]
fn entries_that_fit_exactly_leave_no_room() {
    let state = state_with_entries(3);
    let placed = render_output_log(&state, rect(0, 0, 30, 6));
    assert_eq!(placed.len(), 2);
    assert_eq!(placed[1].area, rect(0, 0, 30, 3));
    assert_eq!(placed[1].lines.len(), 3);
}

#[test]
fn nothing_is_placed_without_room_or_entries() {
    assert_eq!(render_output_log(&state_with_entries(3), rect(0, 0, 30, 0)), vec![]);
    assert_eq!(render_output_log(&state_with_entries(0), rect(0, 0, 30, 10)), vec![]);
}

#[test]
fn a_high_entry_alone_shows_its_end() {
    let mut state = state_with_entries(1);
    state.append_to_last_log("1\n2\n3\n4\n5\n6".to_string());
    let whole = block_of(&state, 0);
    assert_eq!(whole.len(), 9);
    let placed = render_output_log(&state, rect(1, 1, 10, 4));
    assert_eq!(
        placed,
        vec![PlacedBlock { log_index: 0, area: rect(1, 1, 10, 4), lines: whole[5..].to_vec() }]
    );
}

#[test]
fn scrolling_back_starts_lower_in_the_log_and_marks_the_entry() {
    let mut state = state_with_entries(4);
    state.scroll_offset = 2;
    let placed = render_output_log(&state, rect(0, 0, 30, 9));
    assert_eq!(placed.len(), 2);
    assert_eq!(placed[0].log_index, 1);
    assert_eq!(placed[0].area, rect(0, 6, 30, 3));
    assert_eq!(placed[0].lines, recolored(block_of(&state, 1), state.theme.accent));
    assert_eq!(placed[1].log_index, 0);
    assert_eq!(placed[1].lines, block_of(&state, 0));
}

#[test]
fn scrolling_back_too_far_shows_the_first_entry() {
    let mut state = state_with_entries(2);
    state.scroll_offset = 50;
    let placed = render_output_log(&state, rect(0, 0, 30, 9));
    assert_eq!(placed.len(), 1);
    assert_eq!(placed[0].log_index, 0);
    assert_eq!(placed[0].lines, recolored(block_of(&state, 0), state.theme.accent));
}

#[test]
fn the_scrollbar_follows_the_scrolling() {
    let mut state = state_with_entries(11);
    let inner = rect(0, 2, 80, 20);
    let track = rect(79, 2, 1, 20);
    assert_eq!(
        scrollbar(&state, inner, 79),
        Some(Scrollbar { track, thumb_y: 2, thumb_height: 5 })
    );
    state.scroll_offset = 4;
    assert_eq!(
        scrollbar(&state, inner, 79),
        Some(Scrollbar { track, thumb_y: 2 + 15 * 4 / 10, thumb_height: 5 })
    );
    state.scroll_offset = 10;
    assert_eq!(
        scrollbar(&state, inner, 79),
        Some(Scrollbar { track, thumb_y: 17, thumb_height: 5 })
    );
    state.scroll_offset = 99;
    assert_eq!(
        scrollbar(&state, inner, 79),
        Some(Scrollbar { track, thumb_y: 17, thumb_height: 5 })
    );
}

#[test]
fn the_scrollbar_in_small_places() {
    let mut state = state_with_entries(1);
    state.scroll_offset = 3;
    assert_eq!(
        scrollbar(&state, rect(0, 0, 10, 3), 9),
        Some(Scrollbar { track: rect(9, 0, 1, 3), thumb_y: 0, thumb_height: 1 })
    );
    let mut state = state_with_entries(5);
    state.scroll_offset = 4;
    assert_eq!(
        scrollbar(&state, rect(0, 7, 10, 0), 9),
        Some(Scrollbar { track: rect(9, 7, 1, 0), thumb_y: 7, thumb_height: 1 })
    );
    assert_eq!(scrollbar(&state_with_entries(0), rect(0, 0, 10, 10), 9), None);
}

#[test]
fn the_status_bar_names_shell_directory_and_position() {
    let mut state = state_with_entries(7);
    let theme = state.theme;
    let bar = render_status_bar(&state, "0.3.1");
    assert_eq!(
        bar.left,
        vec![
            text(
                " HALO ",
                Style { fg: Some(theme.bg), bg: Some(theme.primary), bold: true, ..plain() }
            ),
            text(" v0.3.1 ", colored(theme.accent)),
        ]
    );
    assert_eq!(
        bar.right,
        vec![
            text("\u{1f4c1} ", colored(theme.accent)),
            text("/work", colored(theme.accent)),
            text("  |  ", plain()),
            text("\u{1f4c4} ", colored(theme.accent)),
            text("7/7 ", colored(theme.accent)),
        ]
    );
    state.git_branch = Some("main \u{2714}".to_string());
    state.scroll_offset = 2;
    let bar = render_status_bar(&state, "1.0");
    assert_eq!(bar.left[1], text(" v1.0 on \u{e0a0} main \u{2714} ", colored(theme.accent)));
    assert_eq!(bar.right[4], text("5/7 ", colored(theme.accent)));
    state.scroll_offset = 6;
    assert_eq!(render_status_bar(&state, "1.0").right[4].text, "1/7 ");
    state.scroll_offset = 60;
    assert_eq!(render_status_bar(&state, "1.0").right[4].text, "1/7 ");
}

#[test]
fn the_status_bar_of_an_empty_log() {
    let mut state = state_with_entries(0);
    assert_eq!(render_status_bar(&state, "1").right[4].text, "0/0 ");
    state.scroll_offset = 1;
    assert_eq!(render_status_bar(&state, "1").right[4].text, "1/0 ");
}

#[test]
fn the_input_box_holds_the_line() {
    let mut state = new_state();
    state.input_buffer = "ls -l".to_string();
    let theme = state.theme;
    let input = render_input_box(&state);
    assert_eq!(
        input.text,
        vec![
            text("\u{276f}  ", Style { bold: true, ..colored(theme.primary) }),
            text("ls -l", colored(theme.fg)),
        ]
    );
    assert_eq!(input.style, plain());
    assert_eq!(input.border_style, colored(theme.primary));
    assert_eq!(
        input.title,
        vec![
            text(DECOR, colored(theme.primary)),
            text("[ ada ]", Style { bold: true, ..colored(theme.accent) }),
        ]
    );
    assert_eq!(DECOR.chars().count(), 12);
    assert!(DECOR.chars().all(|c| c == '\u{2500}'));
}

#[test]
fn the_input_box_previews_an_earlier_command() {
    let mut state = state_with_entries(4);
    state.input_buffer = "typed".to_string();
    state.scroll_offset = 1;
    state.ui.prompt = "$".to_string();
    let theme = state.theme;
    let input = render_input_box(&state);
    assert_eq!(input.text, vec![text("$  ", plain()), text("c2", plain())]);
    assert_eq!(input.style, Style { bold: true, ..colored(theme.accent) });
    assert_eq!(input.border_style, colored(theme.accent));
    assert_eq!(
        input.title,
        vec![
            text(DECOR, colored(theme.accent)),
            text("[[[ HISTORY PREVIEW ]]]", Style { bold: true, ..colored(theme.primary) }),
        ]
    );
    state.scroll_offset = 40;
    assert_eq!(render_input_box(&state).text[1], text("c0", plain()));
    let mut empty = state_with_entries(0);
    empty.scroll_offset = 1;
    assert_eq!(render_input_box(&empty).text[1], text("", plain()));
}

#[test]
fn the_menu_stands_above_the_input_box() {
    assert_eq!(POPUP_WIDTH, 80);
    assert_eq!(POPUP_HEIGHT, 10);
    let mut state = new_state();
    state.completion_state.active = true;
    state.completion_state.suggestions =
        vec!["src/".to_string(), "main.rs".to_string(), "".to_string()];
    state.completion_state.selected_index = 1;
    let popup = render_completion_popup(&state, rect(3, 20, 60, 3));
    assert_eq!(popup.area, rect(3, 15, 60, 5));
    assert_eq!(popup.selected, 1);
    assert_eq!(popup.title, "\u{1f4a1} Suggestions");
    assert_eq!(popup.title, POPUP_TITLE);
    assert_eq!(popup.highlight_symbol, "\u{25b6} ");
    assert_eq!(popup.highlight_symbol, POPUP_MARK);
    assert_eq!(popup.border_style, colored(state.theme.warn));
    assert_eq!(
        popup.highlight_style,
        Style { fg: Some(state.theme.bg), bg: Some(state.theme.primary), bold: true, ..plain() }
    );
    assert_eq!(
        popup.items,
        vec![
            vec![text("\u{1f4c1}", plain()), text(" ", plain()), text("src/", plain())],
            vec![text("\u{1f4c4}", plain()), text(" ", plain()), text("main.rs", plain())],
            vec![text("\u{1f4c4}", plain()), text(" ", plain()), text("", plain())],
        ]
    );
}

#[test]
fn the_menu_has_limits() {
    let mut state = new_state();
    state.completion_state.suggestions = (0..30).map(|i| format!("s{}", i)).collect();
    let popup = render_completion_popup(&state, rect(0, 4, 200, 3));
    assert_eq!(popup.area, rect(0, 0, 80, 10));
    assert_eq!(popup.items.len(), 30);
    state.completion_state.suggestions.truncate(8);
    assert_eq!(render_completion_popup(&state, rect(0, 40, 10, 3)).area, rect(0, 30, 10, 10));
    state.completion_state.suggestions.truncate(7);
    assert_eq!(render_completion_popup(&state, rect(0, 40, 10, 3)).area, rect(0, 31, 10, 9));
    state.completion_state.suggestions.clear();
    assert_eq!(render_completion_popup(&state, rect(0, 40, 10, 3)).area, rect(0, 38, 10, 2));
}

#[test]
fn the_cursor_stands_behind_the_prompt() {
    assert_eq!(PROMPT_WIDTH, 3);
    let mut state = new_state();
    state.input_buffer = "hello".to_string();
    state.cursor_position = 2;
    assert_eq!(cursor_cell(&state, rect(1, 30, 78, 1)), Some((6, 30)));
    state.cursor_position = 0;
    assert_eq!(cursor_cell(&state, rect(0, 0, 1, 1)), Some((3, 0)));
    state.scroll_offset = 1;
    assert_eq!(cursor_cell(&state, rect(1, 30, 78, 1)), None);
}

#[test]
fn the_cursor_stops_at_the_last_column() {
    let mut state = new_state();
    state.cursor_position = 70_000;
    assert_eq!(cursor_cell(&state, rect(1, 2, 78, 1)), Some((65_535, 2)));
    state.cursor_position = 65_531;
    assert_eq!(cursor_cell(&state, rect(1, 2, 78, 1)), Some((65_535, 2)));
    state.cursor_position = 65_530;
    assert_eq!(cursor_cell(&state, rect(1, 2, 78, 1)), Some((65_534, 2)));
    state.cursor_position = 0;
    assert_eq!(cursor_cell(&state, rect(65_534, 2, 1, 1)), Some((65_535, 2)));
}

#[test]
fn the_default_theme_is_used_for_the_tests() {
    assert_eq!(new_state().theme, Theme::default());
}

#[test]
fn the_log_has_a_title() {
    let theme = Theme::from_name("one-dark");
    assert_eq!(LOG_TITLE, " [[[ CONSOLE LOG ]]] ");
    assert_eq!(
        render_log_header(&theme),
        LogHeader {
            title: text(" [[[ CONSOLE LOG ]]] ", Style { bold: true, ..colored(theme.primary) }),
            border_style: colored(theme.comment),
        }
    );
}

#[test]
fn the_thumb_is_the_symbol_of_the_configuration() {
    let mut state = new_state();
    assert_eq!(render_thumb(&state), text("\u{2588}", colored(state.theme.primary)));
    state.ui.scrollbar_thumb = "#".to_string();
    assert_eq!(render_thumb(&state), text("#", colored(state.theme.primary)));
}

#[test]
fn the_screen_holds_all_its_parts() {
    let mut state = state_with_entries(3);
    state.input_buffer = "ls".to_string();
    state.cursor_position = 2;
    let areas = ScreenAreas {
        log_inner: rect(1, 2, 78, 9),
        track_x: 79,
        input: rect(1, 20, 78, 3),
        input_inner: rect(2, 21, 76, 1),
    };
    let screen = draw(&state, &areas, "1.2");
    assert_eq!(screen.log_header, render_log_header(&state.theme));
    assert_eq!(screen.log, render_output_log(&state, areas.log_inner));
    assert_eq!(screen.log.len(), 3);
    assert_eq!(screen.scrollbar, scrollbar(&state, areas.log_inner, 79));
    assert_eq!(screen.thumb, render_thumb(&state));
    assert_eq!(screen.status.left, render_status_bar(&state, "1.2").left);
    assert_eq!(screen.status.right, render_status_bar(&state, "1.2").right);
    assert_eq!(screen.input, render_input_box(&state));
    assert_eq!(screen.popup, None);
    assert_eq!(screen.cursor, Some((7, 21)));

    state.completion_state.active = true;
    state.completion_state.suggestions = vec!["lsblk".to_string()];
    state.scroll_offset = 1;
    let screen = draw(&state, &areas, "1.2");
    assert_eq!(screen.popup, Some(render_completion_popup(&state, areas.input)));
    assert_eq!(screen.cursor, None);
}
