//! Pixel-pattern tests of the segment rasterizer: the command list of
//! one segment, replayed onto a small grid, must match the expected
//! ASCII pattern exactly, with no pixel painted twice and none outside
//! the pattern.

use eg_seven_segment::{FillOp, Point, Rectangle, Segment, Size};

const ON: u8 = 1;

fn render(ops: &[FillOp<u8>], rows: usize, cols: usize) -> Vec<Vec<Option<u8>>> {
    let mut grid = vec![vec![None; cols]; rows];
    for op in ops {
        for dy in 0..op.rect.size.height {
            for dx in 0..op.rect.size.width {
                let x = op.rect.top_left.x + dx as i32;
                let y = op.rect.top_left.y + dy as i32;
                assert!(x >= 0 && y >= 0, "pixel ({}, {}) left of or above the pattern", x, y);
                let (xu, yu) = (x as usize, y as usize);
                assert!(yu < rows && xu < cols, "pixel ({}, {}) outside the pattern", x, y);
                assert!(grid[yu][xu].is_none(), "pixel ({}, {}) painted twice", x, y);
                grid[yu][xu] = Some(op.color);
            }
        }
    }
    grid
}

fn expected_cell(c: char) -> Option<u8> {
    match c {
        '#' => Some(1),
        '.' => Some(0),
        ' ' => None,
        _ => panic!("unexpected pattern character {:?}", c),
    }
}

fn assert_pattern(ops: &[FillOp<u8>], expected: &[&str]) {
    let rows = expected.len();
    let cols = expected.iter().map(|r| r.chars().count()).max().unwrap_or(0);
    let grid = render(ops, rows, cols);
    for (y, row) in expected.iter().enumerate() {
        let chars: Vec<char> = row.chars().collect();
        for x in 0..cols {
            let expected_pixel = expected_cell(*chars.get(x).unwrap_or(&' '));
            assert_eq!(grid[y][x], expected_pixel, "mismatch at ({}, {})", x, y);
        }
    }
}

fn test_segment(rect: Rectangle, expected_pattern: &[&str]) {
    let ops = Segment::new(rect, ON).rasterize();
    assert_pattern(&ops, expected_pattern);
}

#[test]
fn horizontal_1px() {
    test_segment(
        Rectangle::new(Point::zero(), Size::new(10, 1)),
        &["##########"],
    );
}

#[test]
fn horizontal_2px() {
    test_segment(
        Rectangle::new(Point::zero(), Size::new(10, 2)),
        &[
            "##########", //
            "##########", //
        ],
    );
}

#[test]
fn horizontal_3px() {
    test_segment(
        Rectangle::new(Point::zero(), Size::new(10, 3)),
        &[
            " ######## ", //
            "##########", //
            " ######## ", //
        ],
    );
}

#[test]
fn horizontal_4px() {
    test_segment(
        Rectangle::new(Point::zero(), Size::new(10, 4)),
        &[
            " ######## ", //
            "##########", //
            "##########", //
            " ######## ", //
        ],
    );
}

#[test]
fn horizontal_5px() {
    test_segment(
        Rectangle::new(Point::zero(), Size::new(10, 5)),
        &[
            "  ######  ", //
            " ######## ", //
            "##########", //
            " ######## ", //
            "  ######  ", //
        ],
    );
}

#[test]
fn vertical_1px() {
    test_segment(
        Rectangle::new(Point::zero(), Size::new(1, 10)),
        &[
            "#", //
            "#", //
            "#", //
            "#", //
            "#", //
            "#", //
            "#", //
            "#", //
            "#", //
            "#", //
        ],
    );
}

#[test]
fn vertical_2px() {
    test_segment(
        Rectangle::new(Point::zero(), Size::new(2, 10)),
        &[
            "##", //
            "##", //
            "##", //
            "##", //
            "##", //
            "##", //
            "##", //
            "##", //
            "##", //
            "##", //
        ],
    );
}

#[test]
fn vertical_3px() {
    test_segment(
        Rectangle::new(Point::zero(), Size::new(3, 10)),
        &[
            " # ", //
            "###", //
            "###", //
            "###", //
            "###", //
            "###", //
            "###", //
            "###", //
            "###", //
            " # ", //
        ],
    );
}

#[test]
fn vertical_4px() {
    test_segment(
        Rectangle::new(Point::zero(), Size::new(4, 10)),
        &[
            " ## ", //
            "####", //
            "####", //
            "####", //
            "####", //
            "####", //
            "####", //
            "####", //
            "####", //
            " ## ", //
        ],
    );
}

#[test]
fn vertical_5px() {
    test_segment(
        Rectangle::new(Point::zero(), Size::new(5, 10)),
        &[
            "  #  ", //
            " ### ", //
            "#####", //
            "#####", //
            "#####", //
            "#####", //
            "#####", //
            "#####", //
            " ### ", //
            "  #  ", //
        ],
    );
}

#[test]
fn square_1px() {
    test_segment(
        Rectangle::new(Point::zero(), Size::new_equal(1)),
        &[
            "#", //
        ],
    );
}

#[test]
fn square_2px() {
    test_segment(
        Rectangle::new(Point::zero(), Size::new_equal(2)),
        &[
            "##", //
            "##", //
        ],
    );
}

#[test]
fn square_3px() {
    test_segment(
        Rectangle::new(Point::zero(), Size::new_equal(3)),
        &[
            " # ", //
            "###", //
            " # ", //
        ],
    );
}

#[test]
fn square_4px() {
    test_segment(
        Rectangle::new(Point::zero(), Size::new_equal(4)),
        &[
            " ## ", //
            "####", //
            "####", //
            " ## ", //
        ],
    );
}

#[test]
fn square_5px() {
    test_segment(
        Rectangle::new(Point::zero(), Size::new_equal(5)),
        &[
            "  #  ", //
            " ### ", //
            "#####", //
            " ### ", //
            "  #  ", //
        ],
    );
}

#[test]
fn top_left_horizontal() {
    test_segment(
        Rectangle::new(Point::new(2, 3), Size::new(7, 3)),
        &[
            "         ", //
            "         ", //
            "         ", //
            "   ##### ", //
            "  #######", //
            "   ##### ", //
        ],
    );
}

#[test]
fn top_left_vertical() {
    test_segment(
        Rectangle::new(Point::new(3, 1), Size::new(3, 6)),
        &[
            "      ", //
            "    # ", //
            "   ###", //
            "   ###", //
            "   ###", //
            "   ###", //
            "    # ", //
        ],
    );
}

#[test]
fn zero_sized_rect_draws_nothing() {
    let ops = Segment::new(Rectangle::new(Point::new(3, 4), Size::new(0, 5)), ON).rasterize();
    assert!(ops.is_empty());
    let ops = Segment::new(Rectangle::new(Point::new(3, 4), Size::new(5, 0)), ON).rasterize();
    assert!(ops.is_empty());
}

#[test]
fn reduced_size_shrinks_along_long_axis() {
    // A 10x3 bar is inset by 3 / 2 + 1 = 2 from both short ends.
    let ops = Segment::with_reduced_size(
        Rectangle::new(Point::zero(), Size::new(10, 3)),
        ON,
    )
    .rasterize();
    assert_pattern(
        &ops,
        &[
            "   ####   ", //
            "  ######  ", //
            "   ####   ", //
        ],
    );
}

#[test]
fn reduced_size_clamps_to_zero() {
    // Too small for the inset: clamps to zero extent and draws nothing.
    let ops = Segment::with_reduced_size(
        Rectangle::new(Point::zero(), Size::new_equal(1)),
        ON,
    )
    .rasterize();
    assert!(ops.is_empty());
    let ops = Segment::with_reduced_size(
        Rectangle::new(Point::zero(), Size::new(3, 2)),
        ON,
    )
    .rasterize();
    assert!(ops.is_empty());
}

#[test]
fn scanlines_come_in_increasing_order() {
    let ops = Segment::new(Rectangle::new(Point::zero(), Size::new(10, 5)), ON).rasterize();
    assert_eq!(ops.len(), 5);
    for (i, op) in ops.iter().enumerate() {
        assert_eq!(op.rect.top_left.y, i as i32);
        assert_eq!(op.rect.size.height, 1);
    }
}
