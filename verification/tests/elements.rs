use rusty_fem::elements::bar_1d::BarElement1D;
use rusty_fem::elements::{Beam2D, Element2D, Interpolation, QuadQ4, QuadQ8, TriangleT3, TriangleT6, Truss2D};
use rusty_fem::error::Entity;
use rusty_fem::model::{Dof2D, SectionKind};
use rusty_fem::FemError;

#[test]
fn creates_bar_element() {
    let element = BarElement1D::new(10, [1, 2], 3, 4).unwrap();

    assert_eq!(element.id(), 10);
    assert_eq!(element.node_ids(), [1, 2]);
    assert_eq!(element.material_id(), 3);
    assert_eq!(element.section_id(), 4);
    assert_eq!(element.local_dof_node_ids(), [1, 2]);
}

#[test]
fn rejects_repeated_node_ids() {
    let error = BarElement1D::new(10, [1, 1], 3, 4).unwrap_err();

    assert_eq!(error, FemError::InvalidElementConnectivity { element_id: 10, node_ids: vec![1, 1] });
}

#[test]
fn creates_valid_elements() {
    let cases = [
        ("truss", Truss2D::new(10, [1, 2], 90, 100).map(Element2D::Truss), "truss", 10, 90, 100, vec![1, 2]),
        ("beam", Beam2D::new(20, [2, 3], 91, 200).map(Element2D::Beam), "beam", 20, 91, 200, vec![2, 3]),
        (
            "triangle",
            TriangleT3::new(30, [3, 4, 5], 92, 300).map(Element2D::TriangleT3),
            "triangle_t3",
            30,
            92,
            300,
            vec![3, 4, 5],
        ),
        (
            "triangle_t6",
            TriangleT6::new(35, [3, 4, 5, 6, 7, 8], 95, 350).map(Element2D::TriangleT6),
            "triangle_t6",
            35,
            95,
            350,
            vec![3, 4, 5, 6, 7, 8],
        ),
        (
            "quad",
            QuadQ4::new(40, [4, 5, 6, 7], 93, 400).map(Element2D::QuadQ4),
            "quad_q4",
            40,
            93,
            400,
            vec![4, 5, 6, 7],
        ),
        (
            "quad_q8",
            QuadQ8::new(50, [4, 5, 6, 7, 8, 9, 10, 11], 94, 500).map(Element2D::QuadQ8),
            "quad_q8",
            50,
            94,
            500,
            vec![4, 5, 6, 7, 8, 9, 10, 11],
        ),
    ];

    for (
        name,
        result,
        expected_element_type,
        expected_element_id,
        expected_material_id,
        expected_section_id,
        expected_node_ids,
    ) in cases
    {
        let element = result.expect("valid element should be created");

        assert_eq!(element.id(), expected_element_id, "failed case: {name}");
        assert_eq!(element.element_type(), expected_element_type, "failed case: {name}");
        assert_eq!(element.material_id(), expected_material_id, "failed case: {name}");
        assert_eq!(element.section_id(), expected_section_id, "failed case: {name}");

        assert_eq!(element.node_ids(), expected_node_ids.as_slice(), "failed case: {name}");
    }
}

#[test]
fn rejects_elements_with_repeated_nodes() {
    let cases = [
        ("truss", Truss2D::new(10, [1, 1], 0, 100).map(Element2D::Truss), 10, vec![1, 1]),
        ("beam", Beam2D::new(20, [2, 2], 0, 200).map(Element2D::Beam), 20, vec![2, 2]),
        ("triangle", TriangleT3::new(30, [3, 4, 3], 0, 300).map(Element2D::TriangleT3), 30, vec![3, 4, 3]),
        (
            "triangle_t6",
            TriangleT6::new(35, [3, 4, 5, 6, 7, 3], 0, 350).map(Element2D::TriangleT6),
            35,
            vec![3, 4, 5, 6, 7, 3],
        ),
        ("quad", QuadQ4::new(40, [4, 5, 6, 4], 0, 400).map(Element2D::QuadQ4), 40, vec![4, 5, 6, 4]),
        (
            "quad_q8",
            QuadQ8::new(50, [4, 5, 6, 7, 8, 9, 10, 4], 0, 500).map(Element2D::QuadQ8),
            50,
            vec![4, 5, 6, 7, 8, 9, 10, 4],
        ),
    ];

    for (name, result, expected_element_id, expected_node_ids) in cases {
        assert!(
            matches!(
                result,
                Err(FemError::InvalidElementConnectivity {
                    element_id,
                    node_ids,
                })
                if element_id == expected_element_id
                    && node_ids == expected_node_ids
            ),
            "failed case: {name}"
        );
    }
}

#[test]
fn elements_use_correct_interpolation() {
    let cases = [
        (
            "truss",
            Element2D::Truss(Truss2D::new(10, [1, 2], 0, 100).expect("valid truss should be created")),
            Interpolation::LinearLagrange,
        ),
        (
            "beam",
            Element2D::Beam(Beam2D::new(20, [2, 3], 0, 200).expect("valid beam should be created")),
            Interpolation::CubicHermite,
        ),
        (
            "triangle",
            Element2D::TriangleT3(TriangleT3::new(30, [3, 4, 5], 0, 300).expect("valid triangle should be created")),
            Interpolation::LinearTriangleT3,
        ),
        (
            "triangle_t6",
            Element2D::TriangleT6(
                TriangleT6::new(35, [3, 4, 5, 6, 7, 8], 0, 350).expect("valid triangle should be created"),
            ),
            Interpolation::QuadraticTriangleT6,
        ),
        (
            "quad",
            Element2D::QuadQ4(QuadQ4::new(40, [4, 5, 6, 7], 0, 400).expect("valid quad should be created")),
            Interpolation::BilinearQuadQ4,
        ),
        (
            "quad_q8",
            Element2D::QuadQ8(
                QuadQ8::new(50, [4, 5, 6, 7, 8, 9, 10, 11], 0, 500).expect("valid quad should be created"),
            ),
            Interpolation::SerendipityQuadQ8,
        ),
    ];

    for (name, element, expected_interpolation) in cases {
        assert_eq!(element.interpolation(), expected_interpolation, "failed case: {name}");
    }
}

#[test]
fn elements_use_correct_degrees_of_freedom() {
    let cases = [
        (
            "truss",
            Element2D::Truss(Truss2D::new(10, [1, 2], 0, 100).expect("valid truss should be created")),
            vec![Dof2D::Ux, Dof2D::Uy],
            4,
        ),
        (
            "beam",
            Element2D::Beam(Beam2D::new(20, [2, 3], 0, 200).expect("valid beam should be created")),
            vec![Dof2D::Ux, Dof2D::Uy, Dof2D::Rz],
            6,
        ),
        (
            "triangle",
            Element2D::TriangleT3(TriangleT3::new(30, [3, 4, 5], 0, 300).expect("valid triangle should be created")),
            vec![Dof2D::Ux, Dof2D::Uy],
            6,
        ),
        (
            "triangle_t6",
            Element2D::TriangleT6(
                TriangleT6::new(35, [3, 4, 5, 6, 7, 8], 0, 350).expect("valid triangle should be created"),
            ),
            vec![Dof2D::Ux, Dof2D::Uy],
            12,
        ),
        (
            "quad",
            Element2D::QuadQ4(QuadQ4::new(40, [4, 5, 6, 7], 0, 400).expect("valid quad should be created")),
            vec![Dof2D::Ux, Dof2D::Uy],
            8,
        ),
        (
            "quad_q8",
            Element2D::QuadQ8(
                QuadQ8::new(50, [4, 5, 6, 7, 8, 9, 10, 11], 0, 500).expect("valid quad should be created"),
            ),
            vec![Dof2D::Ux, Dof2D::Uy],
            16,
        ),
    ];

    for (name, element, expected_dofs, expected_count) in cases {
        assert_eq!(element.dofs_per_node(), expected_dofs.as_slice(), "failed case: {name}");

        assert_eq!(element.dof_count(), expected_count, "failed case: {name}");
    }
}

#[test]
fn elements_expect_section_types_by_shape() {
    let truss = Element2D::Truss(Truss2D::new(1, [1, 2], 0, 10).unwrap());
    let beam = Element2D::Beam(Beam2D::new(2, [1, 2], 0, 20).unwrap());
    let quad = Element2D::QuadQ4(QuadQ4::new(3, [1, 2, 3, 4], 0, 30).unwrap());

    assert_eq!(truss.expected_section_type(), "truss");
    assert_eq!(beam.expected_section_type(), "beam");
    assert_eq!(quad.expected_section_type(), "plane_stress");
    assert_eq!(quad.section_kind(), SectionKind::PlaneStress);
}

#[test]
fn validates_section_kind_against_element_type() {
    let beam = Element2D::Beam(Beam2D::new(2, [1, 2], 0, 20).unwrap());

    assert_eq!(beam.validate_section(SectionKind::Beam), Ok(()));
    assert_eq!(
        beam.validate_section(SectionKind::Truss),
        Err(FemError::InvalidSectionType { section_id: 20, expected: SectionKind::Beam, actual: SectionKind::Truss })
    );
}

#[test]
fn formats_error_messages() {
    assert_eq!(FemError::DuplicateId { entity: Entity::Node, id: 10 }.message(), "duplicate node ID: 10");
    assert_eq!(FemError::UnknownId { entity: Entity::Material, id: 99 }.message(), "unknown material ID: 99");
    assert_eq!(
        FemError::InvalidElementConnectivity { element_id: 10, node_ids: vec![1, 2, 1] }.message(),
        "element 10 has invalid connectivity: [1, 2, 1]"
    );
    assert_eq!(
        FemError::InvalidAnalysisSpace { value: "4d".to_string() }.message(),
        "invalid analysis space: 4d"
    );
    assert_eq!(
        FemError::UnknownDof { node_id: 3, dof: Dof2D::Rz }.message(),
        "node 3 does not have degree of freedom Rz"
    );
    assert_eq!(
        FemError::InvalidSectionType { section_id: 5, expected: SectionKind::Beam, actual: SectionKind::Truss }
            .message(),
        "section 5 has type truss, expected beam"
    );
    assert_eq!(
        FemError::InvalidReference {
            owner_entity: Entity::Element,
            owner_id: 4,
            referenced_entity: Entity::Section,
            referenced_id: 7,
        }
        .message(),
        "element 4 references unknown section ID: 7"
    );
    assert_eq!(
        FemError::InvalidDofIndex { index: 12 }.message(),
        "linear system references invalid DOF index: 12"
    );
}
