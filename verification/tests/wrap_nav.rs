use textstore::buffer::TextStore;

fn buffer_with(s: &str) -> TextStore {
    let mut b = TextStore::new();
    for c in s.chars() {
        b.push(c);
    }
    b
}

fn move_to(b: &mut TextStore, offset: usize) {
    while b.cursor_offset() > offset {
        b.cursor_left();
    }
    while b.cursor_offset() < offset {
        b.cursor_right();
    }
    assert_eq!(b.cursor_offset(), offset);
}

#[test]
fn wrap_example_width_three() {
    let mut b = buffer_with("abcdef");
    move_to(&mut b, 4);
    assert_eq!(b.cursor_position(3), (1, 1));
    let expected = [(0, 0), (1, 0), (2, 0), (0, 1), (1, 1), (2, 1), (0, 2)];
    for (offset, want) in expected.iter().enumerate() {
        move_to(&mut b, offset);
        assert_eq!(b.cursor_position(3), *want);
    }
}

#[test]
fn newline_example() {
    let mut b = buffer_with("ab\ncd");
    move_to(&mut b, 3);
    assert_eq!(b.cursor_position(5), (0, 1));
    assert_eq!(b.cursor_position(3), (0, 1));
    assert_eq!(b.cursor_position(80), (0, 1));
}

#[test]
fn newline_occupies_the_row_it_ends() {
    let mut b = buffer_with("ab\ncd");
    move_to(&mut b, 2);
    assert_eq!(b.cursor_position(5), (2, 0));
    move_to(&mut b, 5);
    assert_eq!(b.cursor_position(5), (2, 1));
}

#[test]
fn positions_monotonic_along_buffer() {
    let mut b = buffer_with("ab\ncdefg\n\nhi");
    for width in [1u16, 2, 3, 80] {
        let mut prev = (0u16, 0u16);
        move_to(&mut b, 0);
        for offset in 0..=b.len() {
            move_to(&mut b, offset);
            let (x, y) = b.cursor_position(width);
            assert!(y > prev.1 || (y == prev.1 && x >= prev.0));
            prev = (x, y);
        }
    }
}

#[test]
fn render_splits_on_newlines() {
    let b = buffer_with("ab\ncd");
    let lines = b.render();
    assert_eq!(lines, vec!["ab".to_string(), "cd".to_string()]);
}

#[test]
fn render_round_trip() {
    for s in ["", "a", "ab\ncd", "\n", "ab\n", "\n\nx\n"] {
        let b = buffer_with(s);
        let lines = b.render();
        assert!(lines.len() >= 1);
        assert_eq!(lines.join("\n"), s);
    }
}

#[test]
fn cursor_up_jumps_to_previous_row_start() {
    let mut b = buffer_with("abc\ndef");
    move_to(&mut b, 6);
    b.cursor_up(80);
    assert_eq!(b.cursor_offset(), 0);
}

#[test]
fn cursor_up_on_first_row_goes_to_start() {
    let mut b = buffer_with("abc");
    move_to(&mut b, 2);
    b.cursor_up(80);
    assert_eq!(b.cursor_offset(), 0);
}

#[test]
fn cursor_up_across_soft_wrap() {
    let mut b = buffer_with("abcdef");
    move_to(&mut b, 4);
    b.cursor_up(3);
    assert_eq!(b.cursor_offset(), 0);
}

#[test]
fn cursor_down_to_next_row_start() {
    let mut b = buffer_with("abc\ndef");
    move_to(&mut b, 1);
    b.cursor_down(80);
    assert_eq!(b.cursor_offset(), 4);
}

#[test]
fn cursor_down_across_soft_wrap() {
    let mut b = buffer_with("abcdef");
    move_to(&mut b, 0);
    b.cursor_down(3);
    assert_eq!(b.cursor_offset(), 3);
    b.cursor_down(3);
    assert_eq!(b.cursor_offset(), 6);
    b.cursor_down(3);
    assert_eq!(b.cursor_offset(), 6);
}

#[test]
fn vertical_motion_keeps_content() {
    let mut b = buffer_with("ab\ncdef");
    move_to(&mut b, 5);
    b.cursor_up(2);
    b.cursor_down(2);
    b.cursor_down(2);
    assert_eq!(b.chars(), vec!['a', 'b', '\n', 'c', 'd', 'e', 'f']);
}
