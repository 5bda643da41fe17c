use love::backdrop::{code_rows, CodeRow};

#[test]
fn short_canvas_shows_no_lines() {
    assert!(code_rows(0).is_empty());
    assert!(code_rows(21).is_empty());
}

#[test]
fn first_line_appears_at_its_top() {
    assert_eq!(code_rows(22), vec![CodeRow { line_number: 1, top: 22, snippet: 0 }]);
}

#[test]
fn lines_fill_the_height() {
    let rows = code_rows(300);
    assert_eq!(rows.len(), 14);
    for (r, row) in rows.iter().enumerate() {
        assert_eq!(row.line_number, r + 1);
        assert_eq!(row.top as usize, 22 + 20 * r);
        assert_eq!(row.snippet, r % 6);
        assert!(row.top <= 300);
    }
}

#[test]
fn tall_canvas_stops_at_thirty_two_lines() {
    assert_eq!(code_rows(720).len(), 32);
}

#[test]
fn at_most_thirty_two_lines() {
    let rows = code_rows(u32::MAX);
    assert_eq!(rows.len(), 32);
    assert_eq!(rows[31], CodeRow { line_number: 32, top: 642, snippet: 1 });
}

#[test]
fn line_count_steps_every_twenty_pixels() {
    assert_eq!(code_rows(41).len(), 1);
    assert_eq!(code_rows(42).len(), 2);
    assert_eq!(code_rows(61).len(), 2);
    assert_eq!(code_rows(62).len(), 3);
}

#[test]
fn taller_canvas_never_shows_fewer_lines() {
    let mut last = 0;
    for h in 0..800 {
        let n = code_rows(h).len();
        assert!(n >= last);
        last = n;
    }
}
