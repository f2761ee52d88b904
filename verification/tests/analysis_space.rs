use rusty_fem::model::analysis_space::parse_analysis_space;
use rusty_fem::model::AnalysisSpace;
use rusty_fem::FemError;

#[test]
fn two_dimensional_space_has_two_dimensions() {
    assert_eq!(AnalysisSpace::TwoDimensional.spatial_dimension(), 2);
}

#[test]
fn three_dimensional_space_has_three_dimensions() {
    assert_eq!(AnalysisSpace::ThreeDimensional.spatial_dimension(), 3);
}

#[test]
fn parses_two_dimensional_space() {
    assert_eq!("2d".parse::<AnalysisSpace>().expect("valid space"), AnalysisSpace::TwoDimensional);
}

#[test]
fn parses_three_dimensional_space() {
    assert_eq!("3d".parse::<AnalysisSpace>().expect("valid space"), AnalysisSpace::ThreeDimensional);
}

#[test]
fn rejects_unknown_analysis_space() {
    assert!(matches!("4d".parse::<AnalysisSpace>(), Err(FemError::InvalidAnalysisSpace { .. })));
}

#[test]
fn analysis_space_error_keeps_the_input() {
    assert_eq!(parse_analysis_space(" 4D "), Err(FemError::InvalidAnalysisSpace { value: " 4D ".to_string() }));
}

#[test]
fn parses_analysis_space_ignoring_case_and_surrounding_whitespace() {
    assert_eq!(parse_analysis_space(" 2D "), Ok(AnalysisSpace::TwoDimensional));
    assert_eq!(parse_analysis_space("3"), Ok(AnalysisSpace::ThreeDimensional));
}
