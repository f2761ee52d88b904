use rusty_fem::analysis::load_vector::{
    element_edge_positions, linear_edge_positions, quad_q8_edge_positions, triangle_t6_edge_positions,
    EdgeNodePositions,
};
use rusty_fem::analysis::stress_recovery::{beam_element_id, truss_element_id};
use rusty_fem::elements::{Beam2D, Element2D, QuadQ4, QuadQ8, TriangleT6, Truss2D};

#[test]
fn finds_straight_edges_in_either_direction() {
    assert_eq!(linear_edge_positions(&[1, 2, 3], [2, 3]), Some([1, 2]));
    assert_eq!(linear_edge_positions(&[1, 2, 3], [1, 3]), Some([0, 2]));
    assert_eq!(linear_edge_positions(&[1, 2, 3, 4], [4, 1]), Some([3, 0]));
    assert_eq!(linear_edge_positions(&[1, 2, 3, 4], [1, 3]), None);
    assert_eq!(linear_edge_positions(&[1, 2, 3, 4], [1, 9]), None);
}

#[test]
fn finds_curved_edges_with_midside_nodes() {
    let t6 = [1, 2, 3, 4, 5, 6];
    assert_eq!(triangle_t6_edge_positions(&t6, [1, 2]), Some([0, 3, 1]));
    assert_eq!(triangle_t6_edge_positions(&t6, [1, 3]), Some([0, 5, 2]));
    assert_eq!(triangle_t6_edge_positions(&t6, [1, 4]), None);

    let q8 = [1, 2, 3, 4, 5, 6, 7, 8];
    assert_eq!(quad_q8_edge_positions(&q8, [3, 4]), Some([2, 6, 3]));
    assert_eq!(quad_q8_edge_positions(&q8, [1, 4]), Some([0, 7, 3]));
    assert_eq!(quad_q8_edge_positions(&q8, [1, 3]), None);
}

#[test]
fn dispatches_edge_lookup_by_element_type() {
    let quad = Element2D::QuadQ4(QuadQ4::new(1, [1, 2, 3, 4], 0, 1).unwrap());
    let q8 = Element2D::QuadQ8(QuadQ8::new(2, [1, 2, 3, 4, 5, 6, 7, 8], 0, 1).unwrap());
    let t6 = Element2D::TriangleT6(TriangleT6::new(3, [1, 2, 3, 4, 5, 6], 0, 1).unwrap());

    assert_eq!(element_edge_positions(&quad, [2, 3]), Some(EdgeNodePositions::Linear([1, 2])));
    assert_eq!(element_edge_positions(&q8, [2, 1]), Some(EdgeNodePositions::Quadratic([1, 4, 0])));
    assert_eq!(element_edge_positions(&t6, [3, 2]), Some(EdgeNodePositions::Quadratic([2, 4, 1])));
    assert_eq!(element_edge_positions(&t6, [4, 5]), None);
}

#[test]
fn reports_line_element_ids() {
    let truss = Truss2D::new(11, [1, 2], 0, 1).unwrap();
    let beam = Beam2D::new(12, [1, 2], 0, 1).unwrap();

    assert_eq!(truss_element_id(&truss), 11);
    assert_eq!(beam_element_id(&beam), 12);
}
