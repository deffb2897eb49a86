use field2d::Axis;
use field2d::Coordinate;
use field2d::Direction;
use field2d::Field;
use field2d::FieldError;
use field2d::Offset;

#[test]
fn dimensions_of_fresh_fields() {
    let field: Field<u8> = Field::new(4, 2, 7);
    assert_eq!(field.width(), 4);
    assert_eq!(field.height(), 2);
    assert_eq!(field.get_value(Coordinate { row: 1, column: 3 }), Some(&7));

    let defaulted: Field<i32> = Field::new_default(2, 3);
    assert_eq!(defaulted.width(), 2);
    assert_eq!(defaulted.height(), 3);
    assert_eq!(defaulted.get_value(Coordinate { row: 2, column: 1 }), Some(&0));

    let empty: Field<u8> = Field::new_from_grid(vec![]);
    assert_eq!(empty.width(), 0);
    assert_eq!(empty.height(), 0);
}

#[test]
fn get_value_bounds() {
    let field = Field::new_from_grid(vec![vec![1, 2], vec![3, 4]]);
    assert_eq!(field.get_value(Coordinate { row: 0, column: 1 }), Some(&2));
    assert_eq!(field.get_value(Coordinate { row: 2, column: 0 }), None);
    assert_eq!(field.get_value(Coordinate { row: 0, column: 2 }), None);
}

#[test]
fn set_value_reports_which_axis_failed() {
    let mut field = Field::new_from_grid(vec![vec![1, 2], vec![3, 4]]);
    assert_eq!(field.set_value(Coordinate { row: 0, column: 1 }, 9), Ok(()));
    assert_eq!(field.get_value(Coordinate { row: 0, column: 1 }), Some(&9));
    assert_eq!(
        field.set_value(Coordinate { row: 2, column: 0 }, 9),
        Err(FieldError::RowOutOfBounds)
    );
    assert_eq!(
        field.set_value(Coordinate { row: 1, column: 2 }, 9),
        Err(FieldError::ColumnOutOfBounds)
    );
}

#[test]
fn set_coordinate_iter_stops_at_first_bad_coordinate() {
    let mut field = Field::new_from_grid(vec![vec![1, 2], vec![3, 4]]);
    let result = field.set_coordinate_iter(vec![
        (Coordinate { row: 0, column: 0 }, 10),
        (Coordinate { row: 5, column: 0 }, 20),
        (Coordinate { row: 1, column: 1 }, 30),
    ]);
    assert_eq!(result, Err(FieldError::RowOutOfBounds));
    // The write before the failure sticks; the one after never happens.
    assert_eq!(field.get_grid(), &vec![vec![10, 2], vec![3, 4]]);
}

#[test]
fn value_mut_writes_through() {
    let mut field = Field::new_from_grid(vec![vec![1, 2], vec![3, 4]]);
    if let Some(cell) = field.value_mut(Coordinate { row: 1, column: 0 }) {
        *cell = 33;
    }
    assert_eq!(field.get_value(Coordinate { row: 1, column: 0 }), Some(&33));
    assert!(field.value_mut(Coordinate { row: 9, column: 0 }).is_none());
}

#[test]
fn flat_value_iter_is_row_major() {
    let field = Field::new_from_grid(vec![vec![1, 2], vec![3, 4], vec![5, 6]]);
    let flat: Vec<i32> = field.flat_value_iter().into_iter().copied().collect();
    assert_eq!(flat, vec![1, 2, 3, 4, 5, 6]);
}

#[test]
fn coodinate_iter_access_follows_the_given_order() {
    let field = Field::new_from_grid(vec![vec![1, 2], vec![3, 4]]);
    let coords = vec![
        Coordinate { row: 1, column: 1 },
        Coordinate { row: 0, column: 0 },
        Coordinate { row: 7, column: 7 },
        Coordinate { row: 1, column: 0 },
    ];
    let values: Vec<i32> = field
        .coodinate_iter_access(&coords)
        .into_iter()
        .copied()
        .collect();
    assert_eq!(values, vec![4, 1, 3]);
}

#[test]
fn all_coordinates_is_row_major() {
    let field: Field<u8> = Field::new(3, 2, 0);
    let coords = field.all_coordinates();
    assert_eq!(
        coords,
        vec![
            Coordinate { row: 0, column: 0 },
            Coordinate { row: 0, column: 1 },
            Coordinate { row: 0, column: 2 },
            Coordinate { row: 1, column: 0 },
            Coordinate { row: 1, column: 1 },
            Coordinate { row: 1, column: 2 },
        ]
    );
}

#[test]
fn into_grid_and_set_grid_round_trip() {
    let mut field = Field::new_from_grid(vec![vec![1], vec![2]]);
    field.set_grid(vec![vec![7, 8]]);
    assert_eq!(field.into_grid(), vec![vec![7, 8]]);
}

#[test]
fn direction_and_axis_relationships() {
    assert_eq!(Direction::Horizontal.opposite(), Direction::Vertical);
    assert_eq!(Direction::Vertical.opposite(), Direction::Horizontal);
    assert_eq!(Direction::Diagonal.opposite(), Direction::AntiDiagonal);
    assert_eq!(Direction::AntiDiagonal.opposite(), Direction::Diagonal);

    assert!(Direction::Horizontal.is_axial());
    assert!(Direction::Vertical.is_axial());
    assert!(!Direction::Diagonal.is_axial());
    assert!(!Direction::AntiDiagonal.is_axial());

    assert_eq!(Direction::Horizontal.axis(), Some(Axis::Row));
    assert_eq!(Direction::Vertical.axis(), Some(Axis::Column));
    assert_eq!(Direction::Diagonal.axis(), None);
    assert_eq!(Direction::AntiDiagonal.axis(), None);

    assert_eq!(Axis::Row.opposite(), Axis::Column);
    assert_eq!(Axis::Column.opposite(), Axis::Row);
    assert_eq!(Axis::Row.direction(), Direction::Horizontal);
    assert_eq!(Axis::Column.direction(), Direction::Vertical);
}

#[test]
fn unit_offsets_of_directions() {
    assert_eq!(
        Offset::from_direction(Direction::Horizontal),
        Offset { row: 0, column: 1 }
    );
    assert_eq!(
        Offset::from_direction(Direction::Vertical),
        Offset { row: 1, column: 0 }
    );
    assert_eq!(
        Offset::from_direction(Direction::Diagonal),
        Offset { row: 1, column: 1 }
    );
    assert_eq!(
        Offset::from_direction(Direction::AntiDiagonal),
        Offset { row: 1, column: -1 }
    );
}

#[test]
fn axis_indexed_accessors() {
    let mut coord = Coordinate { row: 3, column: 5 };
    assert_eq!(coord.get_axis_index(Axis::Row), 3);
    assert_eq!(coord.get_axis_index(Axis::Column), 5);
    coord.set_axis_index(Axis::Row, 9);
    assert_eq!(coord, Coordinate { row: 9, column: 5 });

    let mut offset = Offset { row: -2, column: 4 };
    assert_eq!(offset.get_axis_index(Axis::Row), -2);
    assert_eq!(offset.get_axis_index(Axis::Column), 4);
    offset.set_axis_index(Axis::Column, -7);
    assert_eq!(offset, Offset { row: -2, column: -7 });

    assert_eq!(Coordinate::default(), Coordinate { row: 0, column: 0 });
    assert_eq!(Offset::default(), Offset { row: 0, column: 0 });
}

#[test]
fn offset_vector_addition() {
    let sum = Offset { row: 2, column: -3 }.vector_add(Offset { row: -5, column: 10 });
    assert_eq!(sum, Offset { row: -3, column: 7 });
}

#[test]
fn line_in_direction_walks_until_leaving_the_grid() {
    let start = Coordinate { row: 0, column: 2 };
    let walked = start.line_in_direction(Direction::AntiDiagonal, 3, 3);
    assert_eq!(
        walked,
        vec![
            Coordinate { row: 0, column: 2 },
            Coordinate { row: 1, column: 1 },
            Coordinate { row: 2, column: 0 },
        ]
    );
    // The anti-diagonal step underflows at column 0: traversal stops cleanly.
    let from_left = Coordinate { row: 0, column: 0 }.line_in_direction(Direction::AntiDiagonal, 3, 3);
    assert_eq!(from_left, vec![Coordinate { row: 0, column: 0 }]);
    let outside = Coordinate { row: 5, column: 0 }.line_in_direction(Direction::Horizontal, 3, 3);
    assert!(outside.is_empty());
}

#[test]
fn malformed_grid_reads_follow_the_documented_sharp_edge() {
    // Rows of unequal length are never validated; reads behave as the
    // contracts state, not necessarily consistently with one another.
    let field = Field::new_from_grid(vec![vec![1], vec![2, 3]]);
    assert_eq!(field.width(), 1);
    let row1: Vec<i32> = field
        .get_line_iter(Direction::Horizontal, 1)
        .unwrap()
        .into_iter()
        .copied()
        .collect();
    assert_eq!(row1, vec![2, 3]);
    let col0: Vec<i32> = field
        .get_line_iter(Direction::Vertical, 0)
        .unwrap()
        .into_iter()
        .copied()
        .collect();
    assert_eq!(col0, vec![1, 2]);
}

#[test]
fn get_all_lines_matches_single_line_reads() {
    let field = Field::new_from_grid(vec![vec![1, 2, 3], vec![4, 5, 6]]);
    for direction in [
        Direction::Horizontal,
        Direction::Vertical,
        Direction::Diagonal,
        Direction::AntiDiagonal,
    ] {
        let all = field.get_all_lines_iter(direction);
        assert_eq!(
            all.len(),
            field.number_of_lines_in_direction(direction)
        );
        for (index, line) in all.into_iter().enumerate() {
            let single = field.get_line_iter(direction, index).unwrap();
            let a: Vec<i32> = line.into_iter().copied().collect();
            let b: Vec<i32> = single.into_iter().copied().collect();
            assert_eq!(a, b);
        }
    }
}
