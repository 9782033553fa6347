use spwn_lsp::position::{Position, Range};
use spwn_lsp::utils::compute_range;

fn position(line: usize, character: usize) -> Position {
    Position { line, character }
}

#[test]
#[allow(unused_variables)]
fn basic_test() {
    // we want to get after `h` in this
    // and after `i` in `is`
    let input = "
hello
this is a
test
        "
    .to_string()
    .replace("\r\n", "\n");

    let start_end = (9_usize, 14_usize);

    let output = compute_range(input, start_end);

    let expected = Range {
        start: Position {
            line: 2,
            character: 2,
        },
        end: Position {
            line: 2,
            character: 5,
        },
    };
    println!("{:?}", output);
}

#[test]
fn range_within_one_line() {
    let input = "\nhello\nthis is a\ntest\n        ".to_string();
    let output = compute_range(input, (9, 14));
    assert_eq!(output, Range { start: position(2, 2), end: position(2, 7) });
}

#[test]
fn range_over_several_lines() {
    let input = "let a = 1\nlet b = 2\nlet c = 3".to_string();
    let output = compute_range(input, (4, 24));
    assert_eq!(output, Range { start: position(0, 4), end: position(2, 4) });
}

#[test]
fn range_counts_offsets_in_the_normalized_text() {
    let unix = compute_range("one\ntwo\nthree".to_string(), (5, 9));
    let dos = compute_range("one\r\ntwo\r\nthree".to_string(), (5, 9));
    assert_eq!(unix, Range { start: position(1, 1), end: position(2, 1) });
    assert_eq!(dos, unix);
}

#[test]
fn range_of_an_empty_span() {
    let output = compute_range("ab\ncd".to_string(), (3, 3));
    assert_eq!(output, Range { start: position(1, 0), end: position(1, 0) });
}

#[test]
fn range_in_the_empty_text_is_all_zero() {
    for span in [(0, 0), (0, 7), (3, 9), (usize::MAX, usize::MAX)] {
        let output = compute_range(String::new(), span);
        assert_eq!(output, Range { start: position(0, 0), end: position(0, 0) });
    }
}

#[test]
fn range_ends_are_in_order() {
    let text = "a\n\nbcd\r\nef\n";
    for start in 0..12 {
        for end in start..12 {
            let range = compute_range(text.to_string(), (start, end));
            assert!(
                range.start.line < range.end.line
                    || (range.start.line == range.end.line
                        && range.start.character <= range.end.character)
            );
        }
    }
}
