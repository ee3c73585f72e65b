//! End-to-end tests of the text renderer: golden digit patterns in
//! several sizes, chaining across styles, baselines, measurement and
//! the policy for unsupported characters.

use eg_seven_segment::{
    Baseline, FillOp, Point, Rectangle, SevenSegmentStyle, SevenSegmentStyleBuilder, Size,
};

const ON: u8 = 1;
const OFF: u8 = 0;

fn render(ops: &[FillOp<u8>], rows: usize, cols: usize) -> Vec<Vec<Option<u8>>> {
    let mut grid = vec![vec![None; cols]; rows];
    for op in ops {
        for dy in 0..op.rect.size.height {
            for dx in 0..op.rect.size.width {
                let x = op.rect.top_left.x + dx as i32;
                let y = op.rect.top_left.y + dy as i32;
                assert!(x >= 0 && y >= 0, "pixel ({}, {}) left of or above the pattern", x, y);
                let (xu, yu) = (x as usize, y as usize);
                assert!(yu < rows && xu < cols, "pixel ({}, {}) outside the pattern", x, y);
                assert!(grid[yu][xu].is_none(), "pixel ({}, {}) painted twice", x, y);
                grid[yu][xu] = Some(op.color);
            }
        }
    }
    grid
}

fn expected_cell(c: char) -> Option<u8> {
    match c {
        '#' => Some(ON),
        '.' => Some(OFF),
        ' ' => None,
        _ => panic!("unexpected pattern character {:?}", c),
    }
}

fn assert_pattern(ops: &[FillOp<u8>], expected: &[&str]) {
    let rows = expected.len();
    let cols = expected.iter().map(|r| r.chars().count()).max().unwrap_or(0);
    let grid = render(ops, rows, cols);
    for (y, row) in expected.iter().enumerate() {
        let chars: Vec<char> = row.chars().collect();
        for x in 0..cols {
            let expected_pixel = expected_cell(*chars.get(x).unwrap_or(&' '));
            assert_eq!(grid[y][x], expected_pixel, "mismatch at ({}, {})", x, y);
        }
    }
}

fn test_digits(style: SevenSegmentStyle<u8>, digits: &str, expected_pattern: &[&str]) {
    let (ops, _) = style.draw_string(digits, Point::zero(), Baseline::Top);
    assert_pattern(&ops, expected_pattern);
}

#[test]
fn seven_segment_style_digits_1px_9px() {
    let style = SevenSegmentStyleBuilder::new()
        .digit_size(Size::new(5, 9))
        .digit_spacing(1)
        .segment_width(1)
        .segment_color(ON)
        .build();

    test_digits(
        style,
        "0123456789",
        &[
            " ###         ###   ###         ###   ###   ###   ###   ### ",
            "#   #     #     #     # #   # #     #         # #   # #   #",
            "#   #     #     #     # #   # #     #         # #   # #   #",
            "#   #     #     #     # #   # #     #         # #   # #   #",
            "             ###   ###   ###   ###   ###         ###   ### ",
            "#   #     # #         #     #     # #   #     # #   #     #",
            "#   #     # #         #     #     # #   #     # #   #     #",
            "#   #     # #         #     #     # #   #     # #   #     #",
            " ###         ###   ###         ###   ###         ###   ### ",
        ],
    );
}

#[test]
fn seven_segment_style_digits_1px_10px() {
    let style = SevenSegmentStyleBuilder::new()
        .digit_size(Size::new(5, 10))
        .digit_spacing(1)
        .segment_width(1)
        .segment_color(ON)
        .build();

    test_digits(
        style,
        "0123456789",
        &[
            " ###         ###   ###         ###   ###   ###   ###   ### ",
            "#   #     #     #     # #   # #     #         # #   # #   #",
            "#   #     #     #     # #   # #     #         # #   # #   #",
            "#   #     #     #     # #   # #     #         # #   # #   #",
            "             ###   ###   ###   ###   ###         ###   ### ",
            "#   #     # #         #     #     # #   #     # #   #     #",
            "#   #     # #         #     #     # #   #     # #   #     #",
            "#   #     # #         #     #     # #   #     # #   #     #",
            "#   #     # #         #     #     # #   #     # #   #     #",
            " ###         ###   ###         ###   ###         ###   ### ",
        ],
    );
}

#[test]
fn seven_segment_style_digits_2px_12px() {
    let style = SevenSegmentStyleBuilder::new()
        .digit_size(Size::new(7, 12))
        .digit_spacing(1)
        .segment_width(2)
        .segment_color(ON)
        .build();

    test_digits(
        style,
        "01234",
        &[
            "  ###             ###     ###          ",
            "  ###             ###     ###          ",
            "##   ##      ##      ##      ## ##   ##",
            "##   ##      ##      ##      ## ##   ##",
            "##   ##      ##      ##      ## ##   ##",
            "                  ###     ###     ###  ",
            "                  ###     ###     ###  ",
            "##   ##      ## ##           ##      ##",
            "##   ##      ## ##           ##      ##",
            "##   ##      ## ##           ##      ##",
            "  ###             ###     ###          ",
            "  ###             ###     ###          ",
        ],
    );

    test_digits(
        style,
        "56789",
        &[
            "  ###     ###     ###     ###     ###  ",
            "  ###     ###     ###     ###     ###  ",
            "##      ##           ## ##   ## ##   ##",
            "##      ##           ## ##   ## ##   ##",
            "##      ##           ## ##   ## ##   ##",
            "  ###     ###             ###     ###  ",
            "  ###     ###             ###     ###  ",
            "     ## ##   ##      ## ##   ##      ##",
            "     ## ##   ##      ## ##   ##      ##",
            "     ## ##   ##      ## ##   ##      ##",
            "  ###     ###             ###     ###  ",
            "  ###     ###             ###     ###  ",
        ],
    );
}

#[test]
fn seven_segment_style_digits_2px_13px() {
    let style = SevenSegmentStyleBuilder::new()
        .digit_size(Size::new(7, 13))
        .digit_spacing(1)
        .segment_width(2)
        .segment_color(ON)
        .build();

    test_digits(
        style,
        "01234",
        &[
            "  ###             ###     ###          ",
            "  ###             ###     ###          ",
            "##   ##      ##      ##      ## ##   ##",
            "##   ##      ##      ##      ## ##   ##",
            "##   ##      ##      ##      ## ##   ##",
            "                  ###     ###     ###  ",
            "                  ###     ###     ###  ",
            "##   ##      ## ##           ##      ##",
            "##   ##      ## ##           ##      ##",
            "##   ##      ## ##           ##      ##",
            "##   ##      ## ##           ##      ##",
            "  ###             ###     ###          ",
            "  ###             ###     ###          ",
        ],
    );

    test_digits(
        style,
        "56789",
        &[
            "  ###     ###     ###     ###     ###  ",
            "  ###     ###     ###     ###     ###  ",
            "##      ##           ## ##   ## ##   ##",
            "##      ##           ## ##   ## ##   ##",
            "##      ##           ## ##   ## ##   ##",
            "  ###     ###             ###     ###  ",
            "  ###     ###             ###     ###  ",
            "     ## ##   ##      ## ##   ##      ##",
            "     ## ##   ##      ## ##   ##      ##",
            "     ## ##   ##      ## ##   ##      ##",
            "     ## ##   ##      ## ##   ##      ##",
            "  ###     ###             ###     ###  ",
            "  ###     ###             ###     ###  ",
        ],
    );
}

#[test]
fn seven_segment_style_digits_3px_15px() {
    let style = SevenSegmentStyleBuilder::new()
        .digit_size(Size::new(9, 15))
        .digit_spacing(1)
        .segment_width(3)
        .segment_color(ON)
        .build();

    test_digits(
        style,
        "01234",
        &[
            "   ###                 ###       ###             ",
            "  #####               #####     #####            ",
            " # ### #         #     ### #     ### #   #     # ",
            "###   ###       ###       ###       ### ###   ###",
            "###   ###       ###       ###       ### ###   ###",
            "###   ###       ###       ###       ### ###   ###",
            " #     #         #     ### #     ### #   # ### # ",
            "                      #####     #####     #####  ",
            " #     #         #   # ###       ### #     ### # ",
            "###   ###       ### ###             ###       ###",
            "###   ###       ### ###             ###       ###",
            "###   ###       ### ###             ###       ###",
            " # ### #         #   # ###       ### #         # ",
            "  #####               #####     #####            ",
            "   ###                 ###       ###             ",
        ],
    );

    test_digits(
        style,
        "56789",
        &[
            "   ###       ###       ###       ###       ###   ",
            "  #####     #####     #####     #####     #####  ",
            " # ###     # ###       ### #   # ### #   # ### # ",
            "###       ###             ### ###   ### ###   ###",
            "###       ###             ### ###   ### ###   ###",
            "###       ###             ### ###   ### ###   ###",
            " # ###     # ###           #   # ### #   # ### # ",
            "  #####     #####               #####     #####  ",
            "   ### #   # ### #         #   # ### #     ### # ",
            "      ### ###   ###       ### ###   ###       ###",
            "      ### ###   ###       ### ###   ###       ###",
            "      ### ###   ###       ### ###   ###       ###",
            "   ### #   # ### #         #   # ### #     ### # ",
            "  #####     #####               #####     #####  ",
            "   ###       ###                 ###       ###   ",
        ],
    );
}

#[test]
fn seven_segment_style_digits_3px_16px() {
    let style = SevenSegmentStyleBuilder::new()
        .digit_size(Size::new(9, 16))
        .digit_spacing(1)
        .segment_width(3)
        .segment_color(ON)
        .build();

    test_digits(
        style,
        "01234",
        &[
            "   ###                 ###       ###             ",
            "  #####               #####     #####            ",
            " # ### #         #     ### #     ### #   #     # ",
            "###   ###       ###       ###       ### ###   ###",
            "###   ###       ###       ###       ### ###   ###",
            "###   ###       ###       ###       ### ###   ###",
            " #     #         #     ### #     ### #   # ### # ",
            "                      #####     #####     #####  ",
            " #     #         #   # ###       ### #     ### # ",
            "###   ###       ### ###             ###       ###",
            "###   ###       ### ###             ###       ###",
            "###   ###       ### ###             ###       ###",
            "###   ###       ### ###             ###       ###",
            " # ### #         #   # ###       ### #         # ",
            "  #####               #####     #####            ",
            "   ###                 ###       ###             ",
        ],
    );

    test_digits(
        style,
        "56789",
        &[
            "   ###       ###       ###       ###       ###   ",
            "  #####     #####     #####     #####     #####  ",
            " # ###     # ###       ### #   # ### #   # ### # ",
            "###       ###             ### ###   ### ###   ###",
            "###       ###             ### ###   ### ###   ###",
            "###       ###             ### ###   ### ###   ###",
            " # ###     # ###           #   # ### #   # ### # ",
            "  #####     #####               #####     #####  ",
            "   ### #   # ### #         #   # ### #     ### # ",
            "      ### ###   ###       ### ###   ###       ###",
            "      ### ###   ###       ### ###   ###       ###",
            "      ### ###   ###       ### ###   ###       ###",
            "      ### ###   ###       ### ###   ###       ###",
            "   ### #   # ### #         #   # ### #     ### # ",
            "  #####     #####               #####     #####  ",
            "   ###       ###                 ###       ###   ",
        ],
    );
}

#[test]
fn seven_segment_style_chaining() {
    let style1 = SevenSegmentStyleBuilder::new()
        .digit_size(Size::new(5, 9))
        .digit_spacing(1)
        .segment_width(1)
        .segment_color(ON)
        .build();

    let style2 = SevenSegmentStyleBuilder::from_style(&style1)
        .digit_size(Size::new(7, 11))
        .segment_color(OFF)
        .build();

    let p = Point::new(0, 10);
    let (mut ops, next) = style1.draw_string("12", p, Baseline::Alphabetic);
    let (mut ops2, _) = style2.draw_string("3", next, Baseline::Alphabetic);
    ops.append(&mut ops2);

    assert_pattern(
        &ops,
        &[
            "             ..... ",
            "                  .",
            "       ###        .",
            "    #     #       .",
            "    #     #       .",
            "    #     #  ..... ",
            "       ###        .",
            "    # #           .",
            "    # #           .",
            "    # #           .",
            "       ###   ..... ",
        ],
    );
}

#[test]
fn chaining_with_colon() {
    let style1 = SevenSegmentStyleBuilder::new()
        .digit_size(Size::new(5, 9))
        .digit_spacing(1)
        .segment_width(1)
        .segment_color(ON)
        .build();

    let style2 = SevenSegmentStyleBuilder::from_style(&style1)
        .digit_size(Size::new(7, 11))
        .segment_color(OFF)
        .build();

    let p = Point::new(0, 10);
    let (mut ops, next) = style1.draw_string("1:2", p, Baseline::Alphabetic);
    let (mut ops2, _) = style2.draw_string("3", next, Baseline::Alphabetic);
    ops.append(&mut ops2);

    assert_pattern(
        &ops,
        &[
            "               ..... ",
            "                    .",
            "         ###        .",
            "    #       #       .",
            "    #       #       .",
            "    # #     #  ..... ",
            "         ###        .",
            "    #   #           .",
            "    # # #           .",
            "    #   #           .",
            "         ###   ..... ",
        ],
    );
}

#[test]
fn seven_segment_style_multiple_lines() {
    let style = SevenSegmentStyleBuilder::new()
        .digit_size(Size::new(5, 9))
        .digit_spacing(2)
        .segment_width(1)
        .segment_color(ON)
        .build();

    // The line splitting itself belongs to the host: each line is one
    // draw, the next line one line height further down.
    let (mut ops, _) = style.draw_string("12", Point::zero(), Baseline::Top);
    let line2_top = Point::new(0, style.line_height() as i32);
    let (mut ops2, _) = style.draw_string("3", line2_top, Baseline::Top);
    ops.append(&mut ops2);

    assert_pattern(
        &ops,
        &[
            "        ### ",
            "    #      #",
            "    #      #",
            "    #      #",
            "        ### ",
            "    #  #    ",
            "    #  #    ",
            "    #  #    ",
            "        ### ",
            "            ",
            "            ",
            " ###        ",
            "    #       ",
            "    #       ",
            "    #       ",
            " ###        ",
            "    #       ",
            "    #       ",
            "    #       ",
            " ###        ",
        ],
    );
}

fn test_baseline(baseline: Baseline, expected_pattern: &[&str]) {
    let style = SevenSegmentStyleBuilder::new()
        .digit_size(Size::new(5, 9))
        .digit_spacing(2)
        .segment_width(1)
        .segment_color(ON)
        .build();

    let (ops, _) = style.draw_string("8", Point::new(0, 8), baseline);
    assert_pattern(&ops, expected_pattern);
}

#[test]
fn seven_segment_style_baseline_top() {
    test_baseline(
        Baseline::Top,
        &[
            "     ", //
            "     ", //
            "     ", //
            "     ", //
            "     ", //
            "     ", //
            "     ", //
            "     ", //
            " ### ", //
            "#   #", //
            "#   #", //
            "#   #", //
            " ### ", //
            "#   #", //
            "#   #", //
            "#   #", //
            " ### ", //
        ],
    );
}

#[test]
fn seven_segment_style_baseline_middle() {
    test_baseline(
        Baseline::Middle,
        &[
            "     ", //
            "     ", //
            "     ", //
            "     ", //
            " ### ", //
            "#   #", //
            "#   #", //
            "#   #", //
            " ### ", //
            "#   #", //
            "#   #", //
            "#   #", //
            " ### ", //
        ],
    );
}

#[test]
fn seven_segment_style_baseline_bottom() {
    test_baseline(
        Baseline::Bottom,
        &[
            " ### ", //
            "#   #", //
            "#   #", //
            "#   #", //
            " ### ", //
            "#   #", //
            "#   #", //
            "#   #", //
            " ### ", //
        ],
    );
}

#[test]
fn seven_segment_style_baseline_alphabetic() {
    test_baseline(
        Baseline::Alphabetic,
        &[
            " ### ", //
            "#   #", //
            "#   #", //
            "#   #", //
            " ### ", //
            "#   #", //
            "#   #", //
            "#   #", //
            " ### ", //
        ],
    );
}

#[test]
fn measure_string() {
    let style = SevenSegmentStyleBuilder::new()
        .digit_size(Size::new(7, 12))
        .digit_spacing(1)
        .segment_width(2)
        .segment_color(ON)
        .build();

    let position = Point::new(1, 2);

    let metrics = style.measure_string("12", position, Baseline::Top);
    assert_eq!(
        metrics.bounding_box,
        Rectangle::new(
            position,
            Size::new(
                style.digit_size.width * 2 + style.digit_spacing,
                style.digit_size.height,
            ),
        )
    );
    assert_eq!(
        metrics.next_position,
        Point::new(position.x + metrics.bounding_box.size.width as i32, position.y)
    );
}

#[test]
fn measure_string_with_colon() {
    let style = SevenSegmentStyleBuilder::new()
        .digit_size(Size::new(7, 12))
        .digit_spacing(1)
        .segment_width(2)
        .segment_color(ON)
        .build();

    let position = Point::new(1, 2);

    let metrics = style.measure_string("1:2", position, Baseline::Top);
    assert_eq!(
        metrics.bounding_box,
        Rectangle::new(
            position,
            Size::new(
                style.digit_size.width * 2 + style.digit_spacing * 2 + style.segment_width,
                style.digit_size.height,
            ),
        )
    );
    assert_eq!(
        metrics.next_position,
        Point::new(position.x + metrics.bounding_box.size.width as i32, position.y)
    );
}

#[test]
fn invalid_char() {
    let style = SevenSegmentStyleBuilder::new()
        .digit_size(Size::new(5, 9))
        .digit_spacing(1)
        .segment_width(1)
        .segment_color(ON)
        .build();

    test_digits(
        style,
        "0W1",
        &[
            " ###             ",
            "#   #           #",
            "#   #           #",
            "#   #           #",
            "                 ",
            "#   #           #",
            "#   #           #",
            "#   #           #",
            " ###             ",
        ],
    );
}
