use field2d::Coordinate;
use field2d::Direction;
use field2d::Field;
use field2d::FieldError;
use field2d::Offset;

fn grid_3x3() -> Field<i32> {
    Field::new_from_grid(vec![vec![1, 2, 3], vec![4, 5, 6], vec![7, 8, 9]])
}

fn line_values(field: &Field<i32>, direction: Direction, index: usize) -> Vec<i32> {
    field
        .get_line_iter(direction, index)
        .expect("line index in range")
        .into_iter()
        .copied()
        .collect()
}

#[test]
fn checked_add_applies_signed_deltas() {
    let c = Coordinate { row: 2, column: 3 };
    let shifted = c.checked_add(Offset { row: -1, column: 2 });
    assert_eq!(shifted, Some(Coordinate { row: 1, column: 5 }));
    let stay = c.checked_add(Offset { row: 0, column: 0 });
    assert_eq!(stay, Some(c));
}

#[test]
fn checked_add_fails_on_underflow() {
    let c = Coordinate { row: 2, column: 3 };
    assert_eq!(c.checked_add(Offset { row: -3, column: 0 }), None);
    assert_eq!(c.checked_add(Offset { row: 0, column: -4 }), None);
    let origin = Coordinate { row: 0, column: 0 };
    assert_eq!(origin.checked_add(Offset { row: -1, column: 0 }), None);
}

#[test]
fn checked_add_fails_on_overflow() {
    let c = Coordinate { row: usize::MAX, column: 0 };
    assert_eq!(c.checked_add(Offset { row: 1, column: 0 }), None);
    assert_eq!(
        c.checked_add(Offset { row: 0, column: 1 }),
        Some(Coordinate { row: usize::MAX, column: 1 })
    );
}

#[test]
fn diagonal_line_counts_match() {
    for (width, height) in [(1usize, 1usize), (3, 3), (2, 5), (7, 4)] {
        let field: Field<u8> = Field::new(width, height, 0);
        let d = field.number_of_lines_in_direction(Direction::Diagonal);
        let a = field.number_of_lines_in_direction(Direction::AntiDiagonal);
        assert_eq!(d, width + height - 1);
        assert_eq!(a, width + height - 1);
        assert_eq!(
            field.number_of_lines_in_direction(Direction::Horizontal),
            height
        );
        assert_eq!(
            field.number_of_lines_in_direction(Direction::Vertical),
            width
        );
    }
}

#[test]
fn three_by_three_diagonal_starts() {
    let field = grid_3x3();
    let starts = field.line_start_coordinates(Direction::Diagonal);
    let expected = [(2, 0), (1, 0), (0, 0), (0, 1), (0, 2)];
    assert_eq!(starts.len(), expected.len());
    for (start, (row, column)) in starts.iter().zip(expected) {
        assert_eq!(*start, Coordinate { row, column });
    }
}

#[test]
fn three_by_three_anti_diagonal_starts() {
    let field = grid_3x3();
    let starts = field.line_start_coordinates(Direction::AntiDiagonal);
    let expected = [(0, 0), (0, 1), (0, 2), (1, 2), (2, 2)];
    assert_eq!(starts.len(), expected.len());
    for (start, (row, column)) in starts.iter().zip(expected) {
        assert_eq!(*start, Coordinate { row, column });
    }
}

#[test]
fn horizontal_and_vertical_starts() {
    let field = grid_3x3();
    let horizontal = field.line_start_coordinates(Direction::Horizontal);
    assert_eq!(
        horizontal,
        vec![
            Coordinate { row: 0, column: 0 },
            Coordinate { row: 1, column: 0 },
            Coordinate { row: 2, column: 0 },
        ]
    );
    let vertical = field.line_start_coordinates(Direction::Vertical);
    assert_eq!(
        vertical,
        vec![
            Coordinate { row: 0, column: 0 },
            Coordinate { row: 0, column: 1 },
            Coordinate { row: 0, column: 2 },
        ]
    );
}

#[test]
fn line_contents_3x3() {
    let field = grid_3x3();
    assert_eq!(line_values(&field, Direction::Horizontal, 1), vec![4, 5, 6]);
    assert_eq!(line_values(&field, Direction::Vertical, 0), vec![1, 4, 7]);
    // Diagonal line 2 starts at the top-left corner and runs down-right.
    assert_eq!(line_values(&field, Direction::Diagonal, 2), vec![1, 5, 9]);
    assert_eq!(line_values(&field, Direction::Diagonal, 0), vec![7]);
    assert_eq!(line_values(&field, Direction::Diagonal, 1), vec![4, 8]);
    // Anti-diagonal line 2 starts at the top-right corner and runs down-left.
    assert_eq!(
        line_values(&field, Direction::AntiDiagonal, 2),
        vec![3, 5, 7]
    );
    assert_eq!(line_values(&field, Direction::AntiDiagonal, 0), vec![1]);
    assert_eq!(
        line_values(&field, Direction::AntiDiagonal, 4),
        vec![9]
    );
}

#[test]
fn get_line_iter_rejects_out_of_range_index() {
    let field = grid_3x3();
    assert!(field.get_line_iter(Direction::Horizontal, 3).is_none());
    assert!(field.get_line_iter(Direction::Diagonal, 5).is_none());
}

#[test]
fn line_round_trip_leaves_field_unchanged() {
    for direction in [
        Direction::Horizontal,
        Direction::Vertical,
        Direction::Diagonal,
        Direction::AntiDiagonal,
    ] {
        let mut field = Field::new_from_grid(vec![
            vec![1, 2, 3, 4],
            vec![5, 6, 7, 8],
            vec![9, 10, 11, 12],
        ]);
        let before = field.get_grid().clone();
        let count = field.number_of_lines_in_direction(direction);
        for index in 0..count {
            let values = line_values(&field, direction, index);
            assert_eq!(field.set_line_iter(direction, index, values), Ok(()));
        }
        assert_eq!(field.get_grid(), &before);
    }
}

#[test]
fn set_line_errors() {
    let mut field = grid_3x3();
    let before = field.get_grid().clone();
    assert_eq!(
        field.set_line_iter(Direction::Horizontal, 3, vec![0, 0, 0]),
        Err(FieldError::LineIndexOutOfBounds)
    );
    assert_eq!(
        field.set_line_iter(Direction::Horizontal, 0, vec![0, 0]),
        Err(FieldError::LineLengthMismatch)
    );
    assert_eq!(
        field.set_line_iter(Direction::Diagonal, 1, vec![0]),
        Err(FieldError::LineLengthMismatch)
    );
    assert_eq!(field.get_grid(), &before);
}

#[test]
fn set_line_ignores_excess_values() {
    let mut field = grid_3x3();
    assert_eq!(
        field.set_line_iter(Direction::Vertical, 1, vec![20, 50, 80, 999]),
        Ok(())
    );
    assert_eq!(
        field.get_grid(),
        &vec![vec![1, 20, 3], vec![4, 50, 6], vec![7, 80, 9]]
    );
}

#[test]
fn set_all_lines_rewrites_the_grid() {
    let mut field = grid_3x3();
    let result = field.set_all_lines_iter(
        Direction::Vertical,
        vec![vec![10, 40, 70], vec![20, 50, 80], vec![30, 60, 90]],
    );
    assert_eq!(result, Ok(()));
    assert_eq!(
        field.get_grid(),
        &vec![vec![10, 20, 30], vec![40, 50, 60], vec![70, 80, 90]]
    );
}

#[test]
fn set_all_lines_stops_at_first_failure() {
    let mut field = grid_3x3();
    let result = field.set_all_lines_iter(
        Direction::Horizontal,
        vec![vec![10, 20, 30], vec![40, 50]],
    );
    assert_eq!(result, Err(FieldError::LineLengthMismatch));
    assert_eq!(
        field.get_grid(),
        &vec![vec![10, 20, 30], vec![4, 5, 6], vec![7, 8, 9]]
    );
}

#[test]
fn transform_all_matches_direct_application() {
    let field = grid_3x3();
    let doubled = field.transform_all(|v| v * 2);
    for row in 0..3usize {
        for column in 0..3usize {
            let original = grid_3x3();
            let coord = Coordinate { row, column };
            let expected = original.get_value(coord).copied().unwrap() * 2;
            assert_eq!(doubled.get_value(coord).copied(), Some(expected));
        }
    }
    assert_eq!(
        doubled.get_grid(),
        &vec![vec![2, 4, 6], vec![8, 10, 12], vec![14, 16, 18]]
    );
}

#[test]
fn transform_by_line_turns_lines_into_rows() {
    let field = grid_3x3();
    let reversed = field
        .transform_by_line(Direction::Horizontal, |line| {
            line.into_iter().rev().copied().collect()
        })
        .expect("equal-length lines form a field");
    assert_eq!(
        reversed.get_grid(),
        &vec![vec![3, 2, 1], vec![6, 5, 4], vec![9, 8, 7]]
    );

    // Diagonal lines of a 3x3 grid have lengths 1..3..1: one sum per line
    // still fits the deduced width of 1.
    let sums = grid_3x3()
        .transform_by_line(Direction::Diagonal, |line| {
            vec![line.into_iter().sum::<i32>()]
        })
        .expect("equal-length lines form a field");
    assert_eq!(
        sums.get_grid(),
        &vec![vec![7], vec![12], vec![15], vec![8], vec![3]]
    );
}

#[test]
fn transform_by_line_rejects_ragged_output() {
    // Handing the diagonal lines back unchanged produces lines of unequal
    // length, which fit no deducible width.
    let ragged = grid_3x3().transform_by_line(Direction::Diagonal, |line| {
        line.into_iter().copied().collect::<Vec<i32>>()
    });
    assert!(ragged.is_none());
}

#[test]
fn transform_by_line_of_an_empty_field() {
    let empty: Field<i32> = Field::new_from_grid(vec![]);
    let out = empty
        .transform_by_line(Direction::Horizontal, |line| {
            line.into_iter().copied().collect::<Vec<i32>>()
        })
        .expect("no lines deduce the empty field");
    assert_eq!(out.height(), 0);
    assert_eq!(out.width(), 0);
}

#[test]
fn merge_field_pairs_cells_and_truncates() {
    let a = Field::new_from_grid(vec![vec![1, 2, 3], vec![4, 5, 6]]);
    let b = Field::new_from_grid(vec![vec![10, 20], vec![30, 40], vec![50, 60]]);
    let merged = a.merge_field(b, |x, y| x + y);
    assert_eq!(merged.get_grid(), &vec![vec![11, 22], vec![34, 45]]);
}

#[test]
fn merge_line_combines_existing_and_supplied_values() {
    let mut field = grid_3x3();
    let result = field.merge_line(Direction::Horizontal, 0, vec![10, 20, 30], |a, b| a + b);
    assert_eq!(result, Ok(()));
    assert_eq!(
        field.get_grid(),
        &vec![vec![11, 22, 33], vec![4, 5, 6], vec![7, 8, 9]]
    );
    let result = field.merge_line(Direction::Horizontal, 9, vec![1, 1, 1], |a, b| a + b);
    assert_eq!(result, Err(FieldError::LineIndexOutOfBounds));
    let result = field.merge_line(Direction::Vertical, 0, vec![1], |a, b| a + b);
    assert_eq!(result, Err(FieldError::LineLengthMismatch));
}

#[test]
fn find_all_returns_exact_matches_in_row_major_order() {
    let field = Field::new_from_grid(vec![vec![1, 0, 1], vec![0, 1, 0], vec![1, 0, 1]]);
    let ones = field.find_all(|v| *v == 1);
    assert_eq!(
        ones,
        vec![
            Coordinate { row: 0, column: 0 },
            Coordinate { row: 0, column: 2 },
            Coordinate { row: 1, column: 1 },
            Coordinate { row: 2, column: 0 },
            Coordinate { row: 2, column: 2 },
        ]
    );
    let nines = field.find_all(|v| *v == 9);
    assert!(nines.is_empty());
}

#[test]
fn single_cell_grid_has_one_line_in_every_direction() {
    let field: Field<i32> = Field::new_from_grid(vec![vec![42]]);
    for direction in [
        Direction::Horizontal,
        Direction::Vertical,
        Direction::Diagonal,
        Direction::AntiDiagonal,
    ] {
        assert_eq!(field.number_of_lines_in_direction(direction), 1);
        assert_eq!(line_values(&field, direction, 0), vec![42]);
    }
}

#[test]
fn square_kernel_radius_one_counts() {
    let without_center = Offset::square_kernel(1, false);
    assert_eq!(without_center.len(), 8);
    assert!(!without_center.contains(&Offset { row: 0, column: 0 }));
    let with_center = Offset::square_kernel(1, true);
    assert_eq!(with_center.len(), 9);
    assert!(with_center.contains(&Offset { row: 0, column: 0 }));
}

#[test]
fn square_kernel_is_row_major_and_exact() {
    let kernel = Offset::square_kernel(1, true);
    let expected: Vec<Offset> = vec![
        Offset { row: -1, column: -1 },
        Offset { row: -1, column: 0 },
        Offset { row: -1, column: 1 },
        Offset { row: 0, column: -1 },
        Offset { row: 0, column: 0 },
        Offset { row: 0, column: 1 },
        Offset { row: 1, column: -1 },
        Offset { row: 1, column: 0 },
        Offset { row: 1, column: 1 },
    ];
    assert_eq!(kernel, expected);
    assert_eq!(Offset::square_kernel(0, true), vec![Offset { row: 0, column: 0 }]);
    assert_eq!(Offset::square_kernel(0, false), Vec::<Offset>::new());
}

#[test]
fn kernel_iter_skips_cells_outside_the_grid() {
    let field = grid_3x3();
    let kernel = Offset::square_kernel(1, false);
    let around_center: Vec<i32> = field
        .kernel_iter(Coordinate { row: 1, column: 1 }, &kernel)
        .into_iter()
        .copied()
        .collect();
    assert_eq!(around_center, vec![1, 2, 3, 4, 6, 7, 8, 9]);
    let around_corner: Vec<i32> = field
        .kernel_iter(Coordinate { row: 0, column: 0 }, &kernel)
        .into_iter()
        .copied()
        .collect();
    assert_eq!(around_corner, vec![2, 4, 5]);
}
