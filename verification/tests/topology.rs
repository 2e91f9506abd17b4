use astrofetch::topology::{CellSamplingShape, Quadrant, SamplingGeometry};

#[test]
fn half_block_shape_dimensions() {
    let shape = CellSamplingShape::half_block();
    assert_eq!(shape.columns(), 1);
    assert_eq!(shape.rows(), 2);
    assert_eq!(shape.subcells(), 2);
}

#[test]
fn quadrant_shape_dimensions() {
    let shape = CellSamplingShape::quadrant();
    assert_eq!(shape.columns(), 2);
    assert_eq!(shape.rows(), 2);
    assert_eq!(shape.subcells(), 4);
}

#[test]
fn quadrant_offsets() {
    assert_eq!(Quadrant::TopLeft.offset(), (0, 0));
    assert_eq!(Quadrant::TopRight.offset(), (1, 0));
    assert_eq!(Quadrant::BottomLeft.offset(), (0, 1));
    assert_eq!(Quadrant::BottomRight.offset(), (1, 1));
}

#[test]
fn quadrant_row_major_ordering() {
    assert_eq!(
        Quadrant::ALL,
        [
            Quadrant::TopLeft,
            Quadrant::TopRight,
            Quadrant::BottomLeft,
            Quadrant::BottomRight,
        ]
    );

    let expected: Vec<(usize, usize)> = Quadrant::ALL
        .iter()
        .map(|quadrant| quadrant.offset())
        .collect();
    assert_eq!(CellSamplingShape::quadrant().subcell_offsets(), expected);

    for quadrant in Quadrant::ALL {
        assert_eq!(
            Quadrant::from_offset(quadrant.offset()),
            Some(quadrant),
            "from_offset must round-trip the offset of {quadrant:?}"
        );
    }

    for offset in [(2, 0), (0, 2), (2, 2), (3, 1)] {
        assert_eq!(
            Quadrant::from_offset(offset),
            None,
            "from_offset must reject the invalid offset {offset:?}"
        );
    }
}

#[test]
fn logical_index_mapping() {
    let shape = CellSamplingShape::quadrant();

    let cases = [
        (((0, 0), (0, 0)), (0, 0)),
        (((0, 0), (1, 0)), (1, 0)),
        (((0, 0), (0, 1)), (0, 1)),
        (((0, 0), (1, 1)), (1, 1)),
        (((1, 0), (0, 0)), (2, 0)),
        (((1, 0), (1, 1)), (3, 1)),
        (((0, 1), (0, 0)), (0, 2)),
        (((0, 1), (1, 1)), (1, 3)),
        (((3, 2), (1, 1)), (7, 5)),
    ];

    for (((cell_x, cell_y), (sub_x, sub_y)), expected) in cases {
        assert_eq!(
            shape.logical_index(cell_x, cell_y, sub_x, sub_y),
            expected,
            "cell ({cell_x},{cell_y}) subcell ({sub_x},{sub_y})"
        );
    }
}

#[test]
fn half_block_logical_index_matches_current_renderer() {
    let shape = CellSamplingShape::half_block();

    for (cell_x, cell_y) in [(0usize, 0usize), (1, 0), (7, 3), (19, 9)] {
        assert_eq!(
            shape.logical_index(cell_x, cell_y, 0, 0),
            (cell_x, 2 * cell_y),
            "top half of cell ({cell_x},{cell_y})"
        );
        assert_eq!(
            shape.logical_index(cell_x, cell_y, 0, 1),
            (cell_x, 2 * cell_y + 1),
            "bottom half of cell ({cell_x},{cell_y})"
        );
    }
}

#[test]
fn adjacent_cells_do_not_overlap() {
    let shape = CellSamplingShape::quadrant();

    let mapped = |cell_x: usize, cell_y: usize| {
        shape
            .subcell_offsets()
            .into_iter()
            .map(|(sub_x, sub_y)| shape.logical_index(cell_x, cell_y, sub_x, sub_y))
            .collect::<Vec<_>>()
    };

    let left = mapped(0, 0);
    let right = mapped(1, 0);
    for logical in &left {
        assert!(
            !right.contains(logical),
            "horizontal neighbors must not share logical cell {logical:?}"
        );
    }

    let top = mapped(0, 0);
    let bottom = mapped(0, 1);
    for logical in &top {
        assert!(
            !bottom.contains(logical),
            "vertical neighbors must not share logical cell {logical:?}"
        );
    }
}

#[test]
fn complete_coverage_small_grid() {
    let shape = CellSamplingShape::quadrant();
    let terminal_width = 2;
    let terminal_height = 2;
    let logical_width = terminal_width * shape.columns();
    let logical_height = terminal_height * shape.rows();

    let mut mapped: Vec<(usize, usize)> = Vec::new();
    for cell_y in 0..terminal_height {
        for cell_x in 0..terminal_width {
            for (sub_x, sub_y) in shape.subcell_offsets() {
                mapped.push(shape.logical_index(cell_x, cell_y, sub_x, sub_y));
            }
        }
    }

    assert_eq!(
        mapped.len(),
        terminal_width * terminal_height * shape.subcells(),
        "every subcell of every terminal cell must be mapped"
    );

    let mut unique = mapped.clone();
    unique.sort_unstable();
    unique.dedup();
    assert_eq!(
        unique.len(),
        mapped.len(),
        "mapped logical cells must be unique"
    );

    let expected: Vec<(usize, usize)> = (0..logical_width)
        .flat_map(|logical_x| (0..logical_height).map(move |logical_y| (logical_x, logical_y)))
        .collect();
    assert_eq!(
        unique, expected,
        "mapped set must equal the full 4×4 logical grid"
    );
}

#[test]
fn edge_cells() {
    let shape = CellSamplingShape::quadrant();
    let terminal_width = 3;
    let terminal_height = 2;
    let logical_width = terminal_width * shape.columns();
    let logical_height = terminal_height * shape.rows();

    let corners = [
        (0usize, 0usize),
        (terminal_width - 1, 0),
        (0, terminal_height - 1),
        (terminal_width - 1, terminal_height - 1),
    ];

    for (cell_x, cell_y) in corners {
        for (sub_x, sub_y) in shape.subcell_offsets() {
            let (logical_x, logical_y) = shape.logical_index(cell_x, cell_y, sub_x, sub_y);
            assert!(
                logical_x < logical_width,
                "cell ({cell_x},{cell_y}) subcell ({sub_x},{sub_y}) maps x out of bounds"
            );
            assert!(
                logical_y < logical_height,
                "cell ({cell_x},{cell_y}) subcell ({sub_x},{sub_y}) maps y out of bounds"
            );
        }
    }
}

#[test]
fn test_sampling_geometry_dimensions_match_legacy_chain() {
    assert_eq!(CellSamplingShape::half_block().columns(), 1);
    assert_eq!(CellSamplingShape::half_block().rows(), 2);
    assert_eq!(SamplingGeometry::SUPERSAMPLE_FACTOR, 3);

    for (terminal_width, terminal_height) in
        [(0usize, 0usize), (1, 1), (0, 7), (5, 0), (40, 20), (101, 33)]
    {
        let geometry = SamplingGeometry::for_terminal(
            terminal_width,
            terminal_height,
            CellSamplingShape::half_block(),
        );

        assert_eq!(
            geometry.logical_width(),
            terminal_width.max(1),
            "logical width for ({terminal_width},{terminal_height})"
        );
        assert_eq!(
            geometry.logical_height(),
            terminal_height.max(1) * 2,
            "logical height for ({terminal_width},{terminal_height})"
        );
        assert_eq!(
            geometry.high_width(),
            geometry.logical_width() * 3,
            "high width for ({terminal_width},{terminal_height})"
        );
        assert_eq!(
            geometry.high_height(),
            geometry.logical_height() * 3,
            "high height for ({terminal_width},{terminal_height})"
        );
    }
}

#[test]
fn test_half_block_topology_cross_checks_sampling_geometry() {
    let shape = CellSamplingShape::half_block();
    let terminal_width: usize = 40;
    let terminal_height: usize = 20;
    let geometry = SamplingGeometry::for_terminal(terminal_width, terminal_height, shape);

    assert_eq!(
        geometry.logical_width(),
        terminal_width.max(1) * shape.columns()
    );
    assert_eq!(
        geometry.logical_height(),
        terminal_height.max(1) * shape.rows()
    );
}

#[test]
fn test_sampling_geometry_quadrant_dimensions() {
    for (terminal_width, terminal_height) in
        [(0usize, 0usize), (1, 1), (0, 7), (5, 0), (40, 20), (101, 33)]
    {
        let geometry = SamplingGeometry::for_terminal(
            terminal_width,
            terminal_height,
            CellSamplingShape::quadrant(),
        );

        assert_eq!(
            geometry.logical_width(),
            terminal_width.max(1) * 2,
            "logical width for ({terminal_width},{terminal_height})"
        );
        assert_eq!(
            geometry.logical_height(),
            terminal_height.max(1) * 2,
            "logical height for ({terminal_width},{terminal_height})"
        );
        assert_eq!(
            geometry.high_width(),
            geometry.logical_width() * 3,
            "high width for ({terminal_width},{terminal_height})"
        );
        assert_eq!(
            geometry.high_height(),
            geometry.logical_height() * 3,
            "high height for ({terminal_width},{terminal_height})"
        );
    }
}
