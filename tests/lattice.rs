use softbody::lattice::{square_lattice, triangle_links, Cell, Link};

fn cell_dist2(c1: Cell, c2: Cell) -> i64 {
    let dx = c2.x as i64 - c1.x as i64;
    let dy = c2.y as i64 - c1.y as i64;
    dx * dx + dy * dy
}

#[test]
fn square_lattice_counts() {
    for n in 0..8usize {
        let l = square_lattice(n);
        assert_eq!(l.cells.len(), (n + 1) * (n + 1));
        assert_eq!(l.edges.len(), 2 * n * (n + 1));
        assert_eq!(l.braces.len(), 2 * n * n);
        assert_eq!(l.edges.len() + l.braces.len(), 2 * n * (n + 1) + 2 * n * n);
    }
}

#[test]
fn square_lattice_three_subdivisions() {
    let l = square_lattice(3);
    assert_eq!(l.cells.len(), 16);
    assert_eq!(l.edges.len(), 24);
    assert_eq!(l.braces.len(), 18);
}

#[test]
fn square_lattice_cells_in_index_order() {
    let n = 4usize;
    let l = square_lattice(n);
    for x in 0..=n {
        for y in 0..=n {
            assert_eq!(l.cells[x * (n + 1) + y], Cell { x, y });
        }
    }
}

#[test]
fn square_lattice_edges_are_unit_steps() {
    let l = square_lattice(5);
    for e in &l.edges {
        assert!(e.a < e.b && e.b < l.cells.len());
        assert_eq!(cell_dist2(l.cells[e.a], l.cells[e.b]), 1);
    }
}

#[test]
fn square_lattice_braces_are_diagonal() {
    let l = square_lattice(5);
    for e in &l.braces {
        assert!(e.a < e.b && e.b < l.cells.len());
        assert_eq!(cell_dist2(l.cells[e.a], l.cells[e.b]), 2);
    }
}

#[test]
fn square_lattice_one_subdivision_order() {
    let l = square_lattice(1);
    assert_eq!(
        l.edges,
        vec![Link { a: 0, b: 1 }, Link { a: 0, b: 2 }, Link { a: 1, b: 3 }, Link { a: 2, b: 3 }]
    );
    assert_eq!(l.braces, vec![Link { a: 0, b: 3 }, Link { a: 1, b: 2 }]);
}

#[test]
fn square_lattice_no_subdivision_is_one_point() {
    let l = square_lattice(0);
    assert_eq!(l.cells, vec![Cell { x: 0, y: 0 }]);
    assert!(l.edges.is_empty());
    assert!(l.braces.is_empty());
}

#[test]
fn triangle_is_closed_loop() {
    assert_eq!(
        triangle_links(),
        vec![Link { a: 0, b: 1 }, Link { a: 1, b: 2 }, Link { a: 2, b: 0 }]
    );
}
