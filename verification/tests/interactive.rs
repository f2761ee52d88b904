use rusty_fem::elements::Element2D;
use rusty_fem::interactive::{
    parse_dof, parse_element_line, parse_material_fields, parse_nodal_value_fields, parse_node_fields,
    parse_load_command, parse_section_fields, parse_usize, LoadCommand,
};
use rusty_fem::model::{Dof2D, LoadCoordinateSystem2D, SectionKind};

#[test]
fn parses_dofs_case_insensitively() {
    assert_eq!(parse_dof("ux"), Ok(Dof2D::Ux));
    assert_eq!(parse_dof("Uy"), Ok(Dof2D::Uy));
    assert_eq!(parse_dof("RZ"), Ok(Dof2D::Rz));
}

#[test]
fn rejects_unknown_dof_with_usage() {
    assert_eq!(parse_dof("Unknown"), Err("unknown DOF; use Ux, Uy, or Rz".to_string()));
    assert_eq!(parse_dof(" ux"), Err("unknown DOF; use Ux, Uy, or Rz".to_string()));
}

#[test]
fn parses_element_line() {
    let truss = parse_element_line("truss 10 1 2 7 100").expect("valid truss should be parsed");
    let beam = parse_element_line("beam 15 1 2 8 200").expect("valid beam should be parsed");
    let triangle = parse_element_line("triangle 20 1 2 3 9 300").expect("valid triangle should be parsed");

    assert!(matches!(truss, Element2D::Truss(element) if element.material_id() == 7 && element.section_id() == 100));
    assert!(matches!(beam, Element2D::Beam(element) if element.material_id() == 8 && element.section_id() == 200));
    assert!(
        matches!(triangle, Element2D::TriangleT3(element) if element.material_id() == 9 && element.section_id() == 300)
    );
}

#[test]
fn rejects_invalid_element_line() {
    assert!(parse_element_line("beam 10 1").is_err());
    assert!(parse_element_line("beam 10 1 2").is_err());
    assert!(parse_element_line("beam 10 1 2 7").is_err());
    assert!(parse_element_line("truss 10 1 2").is_err());
    assert!(parse_element_line("triangle 10 1 2 3 7").is_err());
    assert!(parse_element_line("hexagon 10 1 2").is_err());
}

#[test]
fn element_line_errors_name_the_problem() {
    assert_eq!(parse_element_line("   "), Err("expected an element type".to_string()));
    assert_eq!(
        parse_element_line("truss 10 1 2"),
        Err("expected: truss ID NODE_1 NODE_2 MATERIAL_ID SECTION_ID".to_string())
    );
    assert_eq!(
        parse_element_line("beam 10 1"),
        Err("expected: beam ID NODE_1 NODE_2 MATERIAL_ID SECTION_ID".to_string())
    );
    assert_eq!(
        parse_element_line("t3 10 1 2 3 7"),
        Err("expected: triangle ID NODE_1 NODE_2 NODE_3 MATERIAL_ID SECTION_ID".to_string())
    );
    assert_eq!(parse_element_line("hexagon 10 1 2"), Err("unknown element type; use truss, beam, or triangle".to_string()));
    assert_eq!(parse_element_line("truss 10 1 x 7 100"), Err("invalid second node ID: x".to_string()));
    assert_eq!(parse_element_line("truss 10 1 1 7 100"), Err("element 10 has invalid connectivity: [1, 1]".to_string()));
}

#[test]
fn parses_element_type_aliases_case_insensitively() {
    let element = parse_element_line("  TRIANGLE_T3\t4 1 2 3 5 6 ").expect("alias should be accepted");

    assert_eq!(element.id(), 4);
    assert_eq!(element.node_ids(), &[1, 2, 3]);
    assert_eq!(element.material_id(), 5);
    assert_eq!(element.section_id(), 6);
}

#[test]
fn parses_unsigned_fields() {
    assert_eq!(parse_usize("42", "node ID"), Ok(42));
    assert_eq!(parse_usize("+7", "node ID"), Ok(7));
    assert_eq!(parse_usize("18446744073709551615", "node ID"), Ok(usize::MAX));
    assert_eq!(parse_usize("18446744073709551616", "node ID"), Err("invalid node ID: 18446744073709551616".to_string()));
    assert_eq!(parse_usize("-1", "node ID"), Err("invalid node ID: -1".to_string()));
    assert_eq!(parse_usize("", "node ID"), Err("invalid node ID: ".to_string()));
    assert_eq!(parse_usize("+", "node ID"), Err("invalid node ID: +".to_string()));
}

#[test]
fn reads_node_and_material_fields() {
    assert_eq!(parse_node_fields("7 1.5 -2.0"), Ok((7, vec!["1.5".to_string(), "-2.0".to_string()])));
    assert_eq!(parse_node_fields("7 1.5"), Err("expected: ID X Y".to_string()));
    assert_eq!(parse_node_fields("x 1.5 2.0"), Err("invalid node ID: x".to_string()));
    assert_eq!(
        parse_material_fields("7 200.0 0.3 7800.0"),
        Ok((7, vec!["200.0".to_string(), "0.3".to_string(), "7800.0".to_string()]))
    );
    assert_eq!(
        parse_material_fields("7 200.0 0.3"),
        Err("expected: ID YOUNG_MODULUS POISSON_RATIO DENSITY".to_string())
    );
    assert_eq!(parse_material_fields("abc 200.0 0.3 7800.0"), Err("invalid material ID: abc".to_string()));
}

#[test]
fn reads_constraint_and_load_fields() {
    assert_eq!(parse_nodal_value_fields("7 Uy -12.5"), Ok((7, Dof2D::Uy, "-12.5".to_string())));
    assert_eq!(parse_nodal_value_fields("7 Uy"), Err("expected: NODE_ID DOF VALUE".to_string()));
    assert_eq!(parse_nodal_value_fields("7 Unknown 10.0"), Err("unknown DOF; use Ux, Uy, or Rz".to_string()));
}

#[test]
fn reads_section_fields() {
    assert_eq!(parse_section_fields("truss 10 0.01"), Ok((SectionKind::Truss, 10, vec!["0.01".to_string()])));
    assert_eq!(
        parse_section_fields("beam 15 0.02 0.001 0.1"),
        Ok((SectionKind::Beam, 15, vec!["0.02".to_string(), "0.001".to_string(), "0.1".to_string()]))
    );
    assert_eq!(
        parse_section_fields("Plane-Stress 20 0.1"),
        Ok((SectionKind::PlaneStress, 20, vec!["0.1".to_string()]))
    );
    assert_eq!(parse_section_fields("beam 10 0.02 0.001"), Err("expected: beam ID AREA I HEIGHT".to_string()));
    assert_eq!(parse_section_fields("truss 10"), Err("expected: truss ID AREA".to_string()));
    assert_eq!(parse_section_fields("plane_stress 10"), Err("expected: plane_stress ID THICKNESS".to_string()));
    assert_eq!(
        parse_section_fields("hexagon 10 0.1"),
        Err("unknown section type; use truss, beam, or plane_stress".to_string())
    );
    assert_eq!(parse_section_fields(""), Err("expected a section type".to_string()));
    assert_eq!(parse_section_fields("truss -1 0.01"), Err("invalid section ID: -1".to_string()));
}

#[test]
fn parses_q4_element_line() {
    let quad = parse_element_line("q4 40 1 2 3 4 7 300").expect("valid quad should be parsed");

    assert!(matches!(quad, Element2D::QuadQ4(element) if element.material_id() == 7 && element.section_id() == 300));
    assert_eq!(quad.node_ids(), &[1, 2, 3, 4]);
    assert_eq!(
        parse_element_line("q4 40 1 2 3 7 300"),
        Err("expected: q4 ID NODE_1 NODE_2 NODE_3 NODE_4 MATERIAL_ID SECTION_ID".to_string())
    );
    assert_eq!(parse_element_line("Q4 40 1 2 3 x 7 300"), Err("invalid fourth node ID: x".to_string()));
    assert_eq!(
        parse_element_line("quad 40 1 2 3 4 7 300"),
        Err("unknown element type; use truss, beam, or triangle".to_string())
    );
}

#[test]
fn parses_load_commands() {
    assert_eq!(
        parse_load_command("2 Uy -12"),
        Ok(LoadCommand::Nodal { node_id: 2, dof: Dof2D::Uy, value: "-12".to_string() })
    );
    assert_eq!(
        parse_load_command("beam_uniform 10 local 0 -12"),
        Ok(LoadCommand::BeamUniform {
            element_id: 10,
            system: LoadCoordinateSystem2D::Local,
            x: "0".to_string(),
            y: "-12".to_string(),
        })
    );
    assert_eq!(
        parse_load_command("edge_traction 20 2 3 global 0 -1000"),
        Ok(LoadCommand::EdgeTraction {
            element_id: 20,
            edge_node_ids: [2, 3],
            system: LoadCoordinateSystem2D::Global,
            x: "0".to_string(),
            y: "-1000".to_string(),
        })
    );
    assert_eq!(
        parse_load_command("BODY_FORCE 20 Global 0 -9810"),
        Ok(LoadCommand::BodyForce { element_id: 20, x: "0".to_string(), y: "-9810".to_string() })
    );
    assert_eq!(
        parse_load_command("self_weight 20 global 0 -9.81"),
        Ok(LoadCommand::SelfWeight { element_id: 20, x: "0".to_string(), y: "-9.81".to_string() })
    );
}

#[test]
fn rejects_invalid_load_commands() {
    assert_eq!(parse_load_command("7 Uy"), Err("expected: NODE_ID DOF VALUE".to_string()));
    assert_eq!(parse_load_command("7 Unknown 10.0"), Err("unknown DOF; use Ux, Uy, or Rz".to_string()));
    assert_eq!(
        parse_load_command("beam_uniform 10 local 0"),
        Err("expected: beam_uniform ELEMENT_ID local|global QX QY".to_string())
    );
    assert_eq!(
        parse_load_command("beam_uniform 10 polar 0 1"),
        Err("unknown coordinate system; use local or global".to_string())
    );
    assert_eq!(
        parse_load_command("edge_traction 20 2 x global 0 1"),
        Err("invalid second edge node ID: x".to_string())
    );
    assert_eq!(
        parse_load_command("body_force 20 local 0 1"),
        Err("expected: body_force ELEMENT_ID global BX BY".to_string())
    );
    assert_eq!(parse_load_command("self_weight x global 0 1"), Err("invalid element ID: x".to_string()));
}
