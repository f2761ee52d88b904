use rusty_fem::elements::{Beam2D, Element2D, QuadQ4, QuadQ8, TriangleT3, TriangleT6};
use rusty_fem::model::DEFAULT_MATERIAL_ID;
use rusty_fem::visualisation::{
    boundary_edges, element_boundary_edge_node_ids, element_outline_node_ids, escape_xml, write_styles, EdgeKey,
};

#[test]
fn q8_outline_passes_through_midside_nodes() {
    let element = Element2D::QuadQ8(QuadQ8::new(1, [1, 2, 3, 4, 5, 6, 7, 8], DEFAULT_MATERIAL_ID, 1).unwrap());

    assert_eq!(element_outline_node_ids(&element), vec![1, 5, 2, 6, 3, 7, 4, 8, 1]);
}

#[test]
fn outlines_of_the_other_element_types() {
    let beam = Element2D::Beam(Beam2D::new(1, [3, 4], 0, 1).unwrap());
    let t3 = Element2D::TriangleT3(TriangleT3::new(2, [1, 2, 3], 0, 1).unwrap());
    let t6 = Element2D::TriangleT6(TriangleT6::new(3, [1, 2, 3, 4, 5, 6], 0, 1).unwrap());

    assert_eq!(element_outline_node_ids(&beam), vec![3, 4]);
    assert_eq!(element_outline_node_ids(&t3), vec![1, 2, 3, 1]);
    assert_eq!(element_outline_node_ids(&t6), vec![1, 4, 2, 5, 3, 6, 1]);
}

#[test]
fn boundary_edges_of_elements() {
    let t6 = Element2D::TriangleT6(TriangleT6::new(3, [1, 2, 3, 4, 5, 6], 0, 1).unwrap());
    let beam = Element2D::Beam(Beam2D::new(1, [3, 4], 0, 1).unwrap());

    assert_eq!(element_boundary_edge_node_ids(&t6), vec![vec![1, 4, 2], vec![2, 5, 3], vec![3, 6, 1]]);
    assert!(element_boundary_edge_node_ids(&beam).is_empty());
}

#[test]
fn shared_edges_are_not_on_the_boundary() {
    let left = Element2D::QuadQ4(QuadQ4::new(1, [1, 2, 5, 4], 0, 1).unwrap());
    let right = Element2D::QuadQ4(QuadQ4::new(2, [2, 3, 6, 5], 0, 1).unwrap());

    let edges: Vec<Vec<usize>> = boundary_edges(&vec![left, right]).into_iter().map(|e| e.node_ids).collect();

    assert_eq!(edges, vec![vec![1, 2], vec![5, 4], vec![4, 1], vec![2, 3], vec![3, 6], vec![6, 5]]);
}

#[test]
fn edge_keys_ignore_direction() {
    assert_eq!(EdgeKey::new(7, 3), EdgeKey::new(3, 7));
    assert_eq!(EdgeKey::new(7, 3).first, 3);
    assert_eq!(EdgeKey::new(7, 3).second, 7);
}

#[test]
fn escapes_xml_text() {
    assert_eq!(escape_xml("a < b & c > d"), "a &lt; b &amp; c &gt; d");
    assert_eq!(escape_xml("plain"), "plain");
}

#[test]
fn writes_style_sheet() {
    let mut svg = String::from("<svg>\n");
    write_styles(&mut svg);

    assert!(svg.starts_with("<svg>\n<style>\n  .background { fill: #ffffff; }\n"));
    assert!(svg.ends_with("</style>\n"));
}
