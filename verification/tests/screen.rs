use betterprocs::screen::TerminalScreen;

fn feed_lines(screen: &mut TerminalScreen, n: usize) {
    let mut i = 0;
    while i < n {
        let line = format!("line {}\r\n", i);
        screen.process_bytes(line.as_bytes());
        i += 1;
    }
}

#[test]
fn scroll_round_trip_returns_to_origin() {
    let mut screen = TerminalScreen::new(5, 20, 100);
    // 25 lines on a 5-row grid leave 20 lines of scrollback
    feed_lines(&mut screen, 25);
    assert_eq!(screen.scroll_offset, 0);
    screen.scroll_up(3);
    assert_eq!(screen.scroll_offset, 3);
    screen.scroll_down(3);
    assert_eq!(screen.scroll_offset, 0);
}

#[test]
fn scroll_offset_clamped_to_history() {
    let mut screen = TerminalScreen::new(5, 20, 100);
    feed_lines(&mut screen, 25);
    screen.scroll_up(10_000);
    // 25 lines plus the cursor's fresh row, less the 5 visible rows
    assert_eq!(screen.scroll_offset, 21);
    screen.scroll_down(10_000);
    assert_eq!(screen.scroll_offset, 0);
    screen.scroll_up(7);
    screen.scroll_to_bottom();
    assert_eq!(screen.scroll_offset, 0);
}

#[test]
fn scroll_on_empty_scrollback_stays_at_bottom() {
    let mut screen = TerminalScreen::new(5, 20, 100);
    screen.process_bytes(b"hi");
    screen.scroll_up(4);
    assert_eq!(screen.scroll_offset, 0);
}

#[test]
fn resize_only_grows() {
    let mut screen = TerminalScreen::new(10, 40, 100);
    screen.resize(5, 80);
    assert_eq!(screen.rows(), 10);
    assert_eq!(screen.cols(), 80);
    screen.resize(12, 20);
    assert_eq!(screen.rows(), 12);
    assert_eq!(screen.cols(), 80);
}

#[test]
fn written_cells_survive_growing_resize() {
    let mut screen = TerminalScreen::new(5, 20, 100);
    screen.process_bytes(b"AB\r\nCD");
    let before_a = screen.screen().cell(0, 0).unwrap().contents();
    let before_c = screen.screen().cell(1, 0).unwrap().contents();
    assert_eq!(before_a, "A");
    assert_eq!(before_c, "C");
    // growing the grid must not disturb cells already written
    screen.resize(8, 30);
    assert_eq!(screen.screen().cell(0, 0).unwrap().contents(), "A");
    assert_eq!(screen.screen().cell(0, 1).unwrap().contents(), "B");
    assert_eq!(screen.screen().cell(1, 0).unwrap().contents(), "C");
    assert_eq!(screen.screen().cell(1, 1).unwrap().contents(), "D");
}

#[test]
fn feeding_more_bytes_leaves_old_cells_alone() {
    let mut screen = TerminalScreen::new(5, 20, 100);
    screen.process_bytes(b"AB");
    screen.process_bytes(b"\r\nsecond");
    // plain text on a later row does not touch the first row
    assert_eq!(screen.screen().cell(0, 0).unwrap().contents(), "A");
    assert_eq!(screen.screen().cell(0, 1).unwrap().contents(), "B");
}

#[test]
fn colors_and_attributes_are_interpreted() {
    let mut screen = TerminalScreen::new(5, 20, 100);
    // bold red 'X' via SGR control sequences
    screen.process_bytes(b"\x1b[1;31mX\x1b[0m");
    let cell = screen.screen().cell(0, 0).unwrap();
    assert_eq!(cell.contents(), "X");
    assert!(cell.bold());
    assert_eq!(cell.fgcolor(), vt100::Color::Idx(1));
}
