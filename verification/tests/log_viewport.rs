use pui::keys::{KeyCode, KeyPress};
use pui::logview::LogState;
use ratatui::backend::TestBackend;
use ratatui::widgets::{Paragraph, Wrap};
use ratatui::Terminal;

fn key(code: KeyCode) -> KeyPress {
    KeyPress { code, ctrl: false, alt: false }
}

/// Paints the log text exactly as the client does (tabs to eight spaces,
/// wrapped without trimming, scrolled) and returns the rows as strings.
fn paint(logs: &str, offset: usize, width: u16, height: u16) -> Vec<String> {
    let backend = TestBackend::new(width, height);
    let mut terminal = Terminal::new(backend).unwrap();
    let text = logs.replace('\t', "        ");
    terminal
        .draw(|f| {
            let p = Paragraph::new(text.as_str())
                .wrap(Wrap { trim: false })
                .scroll((offset as u16, 0));
            f.render_widget(p, f.area());
        })
        .unwrap();
    let buffer = terminal.backend().buffer();
    buffer
        .content
        .chunks(buffer.area.width as usize)
        .map(|row| row.iter().map(|cell| cell.symbol()).collect::<String>())
        .collect()
}

/// End lands exactly on the true last visual row under the renderer's own
/// wrapping; a naive newline count would miss the wrapped long line.
#[test]
fn end_key_reaches_the_true_end_under_wrapping() {
    let page_height: u16 = 2;
    let page_width: u16 = 40;
    let mut ls = LogState::new(0);
    ls.logs = [
        // long enough to wrap at width 40, into more rows than a raw count sees
        "PATH  /very/long/path/preceded/with/spaces/to/align/columns",
        "ZZ",
    ]
    .join("\n");

    ls.handle_key(key(KeyCode::Char('G')), page_height, page_width);
    ls.update_autoscroll(page_height, page_width);

    let rows = paint(&ls.logs, ls.scroll_offset, page_width, page_height);
    let last = rows.last().unwrap();
    assert!(
        last.contains("ZZ"),
        "expected the last visible row to contain the end marker, got: {:?}",
        last
    );
}

/// Scrolling one step past the end stays clamped: the final line keeps the
/// last visible row.
#[test]
fn end_key_then_down_does_not_overscroll() {
    let page_height: u16 = 2;
    let page_width: u16 = 40;
    let mut ls = LogState::new(0);
    ls.logs = ["AA", "ZZ"].join("\n");

    ls.handle_key(key(KeyCode::Char('G')), page_height, page_width);
    ls.update_autoscroll(page_height, page_width);
    ls.handle_key(key(KeyCode::Down), page_height, page_width);
    ls.update_autoscroll(page_height, page_width);

    let rows = paint(&ls.logs, ls.scroll_offset, page_width, page_height);
    assert!(
        rows[1].contains("ZZ"),
        "expected last visible content line to contain the end marker, got: {:?}",
        rows[1]
    );
    assert!(rows[0].contains("AA"));
}

/// Tabs expand to eight columns before wrapping, so they count toward the
/// visual line total.
#[test]
fn tabs_expand_to_eight_columns_for_wrapping() {
    let mut ls = LogState::new(0);
    ls.logs = "a\tb".to_string();
    // "a" + eight spaces + "b" is ten columns: two rows at width five
    assert_eq!(ls.visual_line_count(5), 2);
    assert_eq!(ls.visual_line_count(10), 1);
}

/// Any manual adjustment leaves the offset within the scrollable range.
#[test]
fn manual_scrolling_stays_within_bounds() {
    let page_height: u16 = 3;
    let page_width: u16 = 10;
    let mut ls = LogState::new(0);
    ls.logs = (0..20).map(|i| format!("line {i}")).collect::<Vec<_>>().join("\n");
    let total = ls.visual_line_count(page_width);
    let max = total.saturating_sub(page_height as usize);

    let presses = [
        KeyCode::End,
        KeyCode::Down,
        KeyCode::Down,
        KeyCode::PageDown,
        KeyCode::Char('d'),
        KeyCode::Up,
        KeyCode::PageUp,
        KeyCode::Char('u'),
        KeyCode::Home,
        KeyCode::Char(' '),
        KeyCode::Char('j'),
        KeyCode::Char('k'),
        KeyCode::Char('b'),
        KeyCode::Char('g'),
        KeyCode::Char('G'),
    ];
    for code in presses {
        ls.handle_key(key(code), page_height, page_width);
        assert!(
            ls.scroll_offset <= max,
            "offset {} escaped the valid range 0..={} after {:?}",
            ls.scroll_offset,
            max,
            code
        );
    }
}

/// While pinned to the end, appended chunks keep the newest content in view;
/// once unpinned, appended chunks leave the offset alone.
#[test]
fn autoscroll_follows_appends_until_disabled() {
    let page_height: u16 = 2;
    let page_width: u16 = 20;
    let mut ls = LogState::new(7);
    assert!(ls.autoscroll);

    ls.append_chunk("one\ntwo\nthree\n", page_height, page_width);
    let max = ls.visual_line_count(page_width).saturating_sub(page_height as usize);
    assert_eq!(ls.scroll_offset, max);

    // unpin by scrolling up, then append: the offset must not move
    ls.handle_key(key(KeyCode::Up), page_height, page_width);
    assert!(!ls.autoscroll);
    let before = ls.scroll_offset;
    ls.append_chunk("four\nfive\nsix\n", page_height, page_width);
    assert_eq!(ls.scroll_offset, before);
}

/// Home jumps to the top and End re-enables following the stream.
#[test]
fn home_and_end_toggle_the_pinning() {
    let page_height: u16 = 2;
    let page_width: u16 = 20;
    let mut ls = LogState::new(0);
    ls.logs = (0..10).map(|i| format!("l{i}")).collect::<Vec<_>>().join("\n");

    ls.handle_key(key(KeyCode::Home), page_height, page_width);
    assert_eq!(ls.scroll_offset, 0);
    assert!(!ls.autoscroll);

    ls.handle_key(key(KeyCode::End), page_height, page_width);
    assert!(ls.autoscroll);
    let max = ls.visual_line_count(page_width).saturating_sub(page_height as usize);
    assert_eq!(ls.scroll_offset, max);
}
