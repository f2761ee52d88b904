//! Parsing of the text commands typed in the interactive session.
//!
//! Lines are split into whitespace-separated fields; keywords are matched without
//! regard to ASCII case. Numeric fields holding coordinates or material values are
//! read by the session itself.
use vstd::prelude::*;

use crate::elements::element_2d::{all_distinct, Beam2D, Element2D, QuadQ4, TriangleT3, Truss2D};
use crate::error::connectivity_message;
use crate::model::dof::Dof2D;
use crate::model::element_load::{ElementLoadKind, LoadCoordinateSystem2D};
use crate::model::sections::SectionKind;
use crate::text::{
    ascii_lowercase, chars_eq, chars_of, split_whitespace_chars, split_ws, string_from_chars,
    to_ascii_lowercase_chars, usize_text_value, append_chars, parse_usize_chars,
};

verus! {

/// The result of reading `field` as the unsigned integer called `name`.
pub open spec fn usize_field(field: Seq<char>, name: Seq<char>) -> Result<usize, Seq<char>> {
    match usize_text_value(field) {
        Some(n) => Ok(n),
        None => Err("invalid "@ + name + ": "@ + field),
    }
}

/// Reads the fields in order as unsigned integers; the first field that is not one
/// decides the error.
pub open spec fn usize_fields(fields: Seq<Seq<char>>, names: Seq<Seq<char>>) -> Result<Seq<usize>, Seq<char>>
    decreases fields.len(),
{
    if fields.len() == 0 {
        Ok(seq![])
    } else {
        match usize_fields(fields.drop_last(), names) {
            Err(m) => Err(m),
            Ok(values) => match usize_field(fields.last(), names[fields.len() - 1]) {
                Ok(n) => Ok(values.push(n)),
                Err(m) => Err(m),
            },
        }
    }
}

/// Element types that the element command accepts.
#[derive(Debug, Clone, Copy, PartialEq, Eq, Structural)]
pub enum ElementLineKind {
    Truss,
    Beam,
    Triangle,
    Quad,
}

/// The element kind named by a keyword.
pub open spec fn element_keyword(keyword: Seq<char>) -> Option<ElementLineKind> {
    let k = ascii_lowercase(keyword);
    if k == "truss"@ {
        Some(ElementLineKind::Truss)
    } else if k == "beam"@ {
        Some(ElementLineKind::Beam)
    } else if k == "triangle"@ || k == "triangle_t3"@ || k == "t3"@ {
        Some(ElementLineKind::Triangle)
    } else if k == "q4"@ {
        Some(ElementLineKind::Quad)
    } else {
        None
    }
}

/// Names of the numeric fields of an element command, in order.
pub open spec fn element_field_names(kind: ElementLineKind) -> Seq<Seq<char>> {
    match kind {
        ElementLineKind::Quad => seq![
            "element ID"@,
            "first node ID"@,
            "second node ID"@,
            "third node ID"@,
            "fourth node ID"@,
            "material ID"@,
            "section ID"@,
        ],
        ElementLineKind::Triangle => seq![
            "element ID"@,
            "first node ID"@,
            "second node ID"@,
            "third node ID"@,
            "material ID"@,
            "section ID"@,
        ],
        _ => seq!["element ID"@, "first node ID"@, "second node ID"@, "material ID"@, "section ID"@],
    }
}

/// Usage message of an element command.
pub open spec fn element_usage(kind: ElementLineKind) -> Seq<char> {
    match kind {
        ElementLineKind::Truss => "expected: truss ID NODE_1 NODE_2 MATERIAL_ID SECTION_ID"@,
        ElementLineKind::Beam => "expected: beam ID NODE_1 NODE_2 MATERIAL_ID SECTION_ID"@,
        ElementLineKind::Triangle => "expected: triangle ID NODE_1 NODE_2 NODE_3 MATERIAL_ID SECTION_ID"@,
        ElementLineKind::Quad => "expected: q4 ID NODE_1 NODE_2 NODE_3 NODE_4 MATERIAL_ID SECTION_ID"@,
    }
}

/// Reading an element command up to, not including, the connectivity check: the
/// element kind and the numeric fields `[ID, nodes..., MATERIAL_ID, SECTION_ID]`.
pub open spec fn element_line_fields(line: Seq<char>) -> Result<(ElementLineKind, Seq<usize>), Seq<char>> {
    let fields = split_ws(line);
    if fields.len() == 0 {
        Err("expected an element type"@)
    } else {
        match element_keyword(fields[0]) {
            None => Err("unknown element type; use truss, beam, or triangle"@),
            Some(kind) => {
                let names = element_field_names(kind);
                if fields.len() != names.len() + 1 {
                    Err(element_usage(kind))
                } else {
                    match usize_fields(fields.drop_first(), names) {
                        Err(m) => Err(m),
                        Ok(values) => Ok((kind, values)),
                    }
                }
            },
        }
    }
}

/// The element was built from `kind` and `values = [ID, nodes..., MATERIAL_ID, SECTION_ID]`.
pub open spec fn element_built_from(element: Element2D, kind: ElementLineKind, values: Seq<usize>) -> bool {
    &&& match kind {
        ElementLineKind::Truss => element is Truss,
        ElementLineKind::Beam => element is Beam,
        ElementLineKind::Triangle => element is TriangleT3,
        ElementLineKind::Quad => element is QuadQ4,
    }
    &&& element.spec_id() == values[0]
    &&& element.spec_node_ids() == values.subrange(1, values.len() - 2)
    &&& element.spec_material_id() == values[values.len() - 2]
    &&& element.spec_section_id() == values[values.len() - 1]
}

/// Parses an unsigned integer field; the error names the field.
pub fn parse_usize(value: &str, name: &str) -> (r: Result<usize, String>)
    ensures
        r matches Ok(n) ==> usize_field(value@, name@) == Ok::<usize, Seq<char>>(n),
        r matches Err(m) ==> usize_field(value@, name@) == Err::<usize, Seq<char>>(m@),
{
    let chars = chars_of(value);
    parse_usize_field(&chars, name)
}

fn parse_usize_field(value: &Vec<char>, name: &str) -> (r: Result<usize, String>)
    ensures
        r matches Ok(n) ==> usize_field(value@, name@) == Ok::<usize, Seq<char>>(n),
        r matches Err(m) ==> usize_field(value@, name@) == Err::<usize, Seq<char>>(m@),
{
    match parse_usize_chars(value) {
        Some(n) => Ok(n),
        None => {
            let mut m = String::new();
            m.append("invalid ");
            m.append(name);
            m.append(": ");
            append_chars(&mut m, value);
            assert(m@ =~= "invalid "@ + name@ + ": "@ + value@);
            Err(m)
        },
    }
}

/// The degree of freedom named by `value`: `ux`, `uy` or `rz`, in any ASCII case.
pub open spec fn dof_keyword(value: Seq<char>) -> Option<Dof2D> {
    let k = ascii_lowercase(value);
    if k == "ux"@ {
        Some(Dof2D::Ux)
    } else if k == "uy"@ {
        Some(Dof2D::Uy)
    } else if k == "rz"@ {
        Some(Dof2D::Rz)
    } else {
        None
    }
}

/// Message for a field that names no degree of freedom.
pub open spec fn unknown_dof_message() -> Seq<char> {
    "unknown DOF; use Ux, Uy, or Rz"@
}

/// Parses a degree-of-freedom name: `ux`, `uy` or `rz`, in any ASCII case.
pub fn parse_dof(value: &str) -> (r: Result<Dof2D, String>)
    ensures
        ascii_lowercase(value@) == "ux"@ ==> r == Ok::<Dof2D, String>(Dof2D::Ux),
        ascii_lowercase(value@) == "uy"@ ==> r == Ok::<Dof2D, String>(Dof2D::Uy),
        ascii_lowercase(value@) == "rz"@ ==> r == Ok::<Dof2D, String>(Dof2D::Rz),
        ascii_lowercase(value@) != "ux"@ && ascii_lowercase(value@) != "uy"@ && ascii_lowercase(value@)
            != "rz"@ ==> (r matches Err(m) && m@ == unknown_dof_message()),
{
    let chars = chars_of(value);
    parse_dof_chars(&chars)
}

fn parse_dof_chars(value: &Vec<char>) -> (r: Result<Dof2D, String>)
    ensures
        dof_keyword(value@) matches Some(d) ==> r == Ok::<Dof2D, String>(d),
        dof_keyword(value@) is None ==> (r matches Err(m) && m@ == unknown_dof_message()),
        ascii_lowercase(value@) == "ux"@ ==> r == Ok::<Dof2D, String>(Dof2D::Ux),
        ascii_lowercase(value@) == "uy"@ ==> r == Ok::<Dof2D, String>(Dof2D::Uy),
        ascii_lowercase(value@) == "rz"@ ==> r == Ok::<Dof2D, String>(Dof2D::Rz),
{
    proof {
        reveal_strlit("ux");
        reveal_strlit("uy");
        reveal_strlit("rz");
        assert("ux"@[1] != "uy"@[1]);
        assert("ux"@[0] != "rz"@[0]);
        assert("uy"@[0] != "rz"@[0]);
    }
    let key = to_ascii_lowercase_chars(value);
    if chars_eq(&key, "ux") {
        Ok(Dof2D::Ux)
    } else if chars_eq(&key, "uy") {
        Ok(Dof2D::Uy)
    } else if chars_eq(&key, "rz") {
        Ok(Dof2D::Rz)
    } else {
        Err(String::from_str("unknown DOF; use Ux, Uy, or Rz"))
    }
}

/// Name of the `k`-th numeric field (from zero) of an element command.
fn element_field_name(kind: ElementLineKind, k: usize) -> (name: &'static str)
    requires
        k < element_field_names(kind).len(),
    ensures
        name@ == element_field_names(kind)[k as int],
{
    match kind {
        ElementLineKind::Quad => {
            if k == 0 {
                "element ID"
            } else if k == 1 {
                "first node ID"
            } else if k == 2 {
                "second node ID"
            } else if k == 3 {
                "third node ID"
            } else if k == 4 {
                "fourth node ID"
            } else if k == 5 {
                "material ID"
            } else {
                "section ID"
            }
        },
        ElementLineKind::Triangle => {
            if k == 0 {
                "element ID"
            } else if k == 1 {
                "first node ID"
            } else if k == 2 {
                "second node ID"
            } else if k == 3 {
                "third node ID"
            } else if k == 4 {
                "material ID"
            } else {
                "section ID"
            }
        },
        _ => {
            if k == 0 {
                "element ID"
            } else if k == 1 {
                "first node ID"
            } else if k == 2 {
                "second node ID"
            } else if k == 3 {
                "material ID"
            } else {
                "section ID"
            }
        },
    }
}

/// Usage message of an element command.
fn element_usage_message(kind: ElementLineKind) -> (m: String)
    ensures
        m@ == element_usage(kind),
{
    match kind {
        ElementLineKind::Truss => String::from_str("expected: truss ID NODE_1 NODE_2 MATERIAL_ID SECTION_ID"),
        ElementLineKind::Beam => String::from_str("expected: beam ID NODE_1 NODE_2 MATERIAL_ID SECTION_ID"),
        ElementLineKind::Triangle => String::from_str(
            "expected: triangle ID NODE_1 NODE_2 NODE_3 MATERIAL_ID SECTION_ID",
        ),
        ElementLineKind::Quad => String::from_str(
            "expected: q4 ID NODE_1 NODE_2 NODE_3 NODE_4 MATERIAL_ID SECTION_ID",
        ),
    }
}

/// Reads the element kind keyword.
fn element_kind_of(keyword: &Vec<char>) -> (r: Option<ElementLineKind>)
    ensures
        r == element_keyword(keyword@),
{
    let key = to_ascii_lowercase_chars(keyword);
    if chars_eq(&key, "truss") {
        Some(ElementLineKind::Truss)
    } else if chars_eq(&key, "beam") {
        Some(ElementLineKind::Beam)
    } else if chars_eq(&key, "triangle") || chars_eq(&key, "triangle_t3") || chars_eq(&key, "t3") {
        Some(ElementLineKind::Triangle)
    } else if chars_eq(&key, "q4") {
        Some(ElementLineKind::Quad)
    } else {
        None
    }
}

/// Parses an element command: `truss ID NODE_1 NODE_2 MATERIAL_ID SECTION_ID`,
/// `beam ID NODE_1 NODE_2 MATERIAL_ID SECTION_ID`,
/// `triangle ID NODE_1 NODE_2 NODE_3 MATERIAL_ID SECTION_ID`, or
/// `q4 ID NODE_1 NODE_2 NODE_3 NODE_4 MATERIAL_ID SECTION_ID` with the nodes
/// counterclockwise.
pub fn parse_element_line(line: &str) -> (r: Result<Element2D, String>)
    ensures
        match element_line_fields(line@) {
            Err(m) => r matches Err(e) && e@ == m,
            Ok((kind, values)) => if all_distinct(values.subrange(1, values.len() - 2)) {
                r matches Ok(element) && element_built_from(element, kind, values)
            } else {
                r matches Err(e) && e@ == connectivity_message(
                    values[0],
                    values.subrange(1, values.len() - 2),
                )
            },
        },
{
    let chars = chars_of(line);
    let fields = split_whitespace_chars(&chars);
    let ghost fv = fields@.map_values(|f: Vec<char>| f@);
    assert(fv == split_ws(line@));
    if fields.len() == 0 {
        return Err(String::from_str("expected an element type"));
    }
    assert(fv[0] == fields@[0]@);
    let kind = match element_kind_of(&fields[0]) {
        Some(kind) => kind,
        None => {
            return Err(String::from_str("unknown element type; use truss, beam, or triangle"));
        },
    };
    let ghost names = element_field_names(kind);
    let count: usize = match kind {
        ElementLineKind::Triangle => 6,
        ElementLineKind::Quad => 7,
        _ => 5,
    };
    assert(count == names.len());
    if fields.len() != count + 1 {
        return Err(element_usage_message(kind));
    }
    let mut values: Vec<usize> = Vec::new();
    let mut k: usize = 1;
    while k < fields.len()
        invariant
            1 <= k <= fields@.len(),
            fields@.len() == count + 1,
            count == names.len(),
            names == element_field_names(kind),
            fv == fields@.map_values(|f: Vec<char>| f@),
            fv == split_ws(line@),
            element_keyword(fv[0]) == Some(kind),
            usize_fields(fv.subrange(1, k as int), names) == Ok::<Seq<usize>, Seq<char>>(values@),
            values@.len() == k - 1,
        decreases fields@.len() - k,
    {
        let ghost part = fv.subrange(1, k + 1);
        assert(part.drop_last() =~= fv.subrange(1, k as int));
        assert(part.last() == fields@[k as int]@);
        let name = element_field_name(kind, k - 1);
        match parse_usize_field(&fields[k], name) {
            Ok(n) => {
                values.push(n);
            },
            Err(m) => {
                proof {
                    assert(fv.drop_first().take(k as int) =~= part);
                    assert(usize_fields(part, names) == Err::<Seq<usize>, Seq<char>>(m@));
                    lemma_usize_fields_err_prefix(fv.drop_first(), names, k as int);
                }
                return Err(m);
            },
        }
        k += 1;
    }
    assert(fv.subrange(1, fields@.len() as int) =~= fv.drop_first());
    let ghost vs = values@;
    let result = match kind {
        ElementLineKind::Truss => match Truss2D::new(values[0], [values[1], values[2]], values[3], values[4]) {
            Ok(e) => Ok(Element2D::Truss(e)),
            Err(e) => Err(e.message()),
        },
        ElementLineKind::Beam => match Beam2D::new(values[0], [values[1], values[2]], values[3], values[4]) {
            Ok(e) => Ok(Element2D::Beam(e)),
            Err(e) => Err(e.message()),
        },
        ElementLineKind::Triangle => match TriangleT3::new(
            values[0],
            [values[1], values[2], values[3]],
            values[4],
            values[5],
        ) {
            Ok(e) => Ok(Element2D::TriangleT3(e)),
            Err(e) => Err(e.message()),
        },
        ElementLineKind::Quad => match QuadQ4::new(
            values[0],
            [values[1], values[2], values[3], values[4]],
            values[5],
            values[6],
        ) {
            Ok(e) => Ok(Element2D::QuadQ4(e)),
            Err(e) => Err(e.message()),
        },
    };
    proof {
        lemma_usize_fields_len(fv.drop_first(), names);
        let nodes = vs.subrange(1, vs.len() - 2);
        match kind {
            ElementLineKind::Triangle => {
                assert(nodes =~= seq![vs[1], vs[2], vs[3]]);
            },
            ElementLineKind::Quad => {
                assert(nodes =~= seq![vs[1], vs[2], vs[3], vs[4]]);
            },
            _ => {
                assert(nodes =~= seq![vs[1], vs[2]]);
            },
        }
    }
    result
}

proof fn lemma_usize_fields_len(fields: Seq<Seq<char>>, names: Seq<Seq<char>>)
    ensures
        usize_fields(fields, names) matches Ok(values) ==> values.len() == fields.len(),
    decreases fields.len(),
{
    if fields.len() > 0 {
        lemma_usize_fields_len(fields.drop_last(), names);
    }
}

/// An error while reading a prefix of the fields is the error of all the fields.
proof fn lemma_usize_fields_err_prefix(fields: Seq<Seq<char>>, names: Seq<Seq<char>>, k: int)
    requires
        0 <= k <= fields.len(),
        usize_fields(fields.take(k), names) is Err,
    ensures
        usize_fields(fields, names) == usize_fields(fields.take(k), names),
    decreases fields.len() - k,
{
    if k < fields.len() {
        assert(fields.take(k + 1).take(k) =~= fields.take(k));
        lemma_usize_fields_err_prefix_step(fields.take(k + 1), names, k);
        lemma_usize_fields_err_prefix(fields, names, k + 1);
    } else {
        assert(fields.take(k) =~= fields);
    }
}

proof fn lemma_usize_fields_err_prefix_step(fields: Seq<Seq<char>>, names: Seq<Seq<char>>, k: int)
    requires
        0 <= k,
        k + 1 == fields.len(),
        usize_fields(fields.take(k), names) is Err,
    ensures
        usize_fields(fields, names) == usize_fields(fields.take(k), names),
{
    assert(fields.drop_last() =~= fields.take(k));
}

/// Reading a command of exactly `count` fields whose first field is the unsigned
/// integer called `name`: that integer and the other fields, in order.
pub open spec fn id_record(line: Seq<char>, count: nat, usage: Seq<char>, name: Seq<char>) -> Result<
    (usize, Seq<Seq<char>>),
    Seq<char>,
> {
    let fields = split_ws(line);
    if fields.len() != count || count == 0 {
        Err(usage)
    } else {
        match usize_field(fields[0], name) {
            Ok(id) => Ok((id, fields.drop_first())),
            Err(m) => Err(m),
        }
    }
}

/// Reading a node command `ID X Y`: the ID and the two coordinate fields.
pub open spec fn node_record(line: Seq<char>) -> Result<(usize, Seq<Seq<char>>), Seq<char>> {
    id_record(line, 3, "expected: ID X Y"@, "node ID"@)
}

/// Reading a material command `ID YOUNG_MODULUS POISSON_RATIO DENSITY`: the ID and
/// the three property fields.
pub open spec fn material_record(line: Seq<char>) -> Result<(usize, Seq<Seq<char>>), Seq<char>> {
    id_record(line, 4, "expected: ID YOUNG_MODULUS POISSON_RATIO DENSITY"@, "material ID"@)
}

/// Reading a constraint or load command `NODE_ID DOF VALUE`: the node, the degree
/// of freedom and the value field.
pub open spec fn nodal_value_record(line: Seq<char>) -> Result<(usize, Dof2D, Seq<char>), Seq<char>> {
    match id_record(line, 3, "expected: NODE_ID DOF VALUE"@, "node ID"@) {
        Err(m) => Err(m),
        Ok((id, rest)) => match dof_keyword(rest[0]) {
            Some(dof) => Ok((id, dof, rest[1])),
            None => Err(unknown_dof_message()),
        },
    }
}

/// The section kind named by a keyword.
pub open spec fn section_keyword(keyword: Seq<char>) -> Option<SectionKind> {
    let k = ascii_lowercase(keyword);
    if k == "truss"@ {
        Some(SectionKind::Truss)
    } else if k == "beam"@ {
        Some(SectionKind::Beam)
    } else if k == "plane_stress"@ || k == "plane-stress"@ || k == "triangle"@ || k == "triangle_t3"@ || k
        == "t3"@ {
        Some(SectionKind::PlaneStress)
    } else {
        None
    }
}

/// Usage message of a section command.
pub open spec fn section_usage(kind: SectionKind) -> Seq<char> {
    match kind {
        SectionKind::Truss => "expected: truss ID AREA"@,
        SectionKind::Beam => "expected: beam ID AREA I HEIGHT"@,
        SectionKind::PlaneStress => "expected: plane_stress ID THICKNESS"@,
    }
}

/// Number of property fields of a section command.
pub open spec fn section_property_count(kind: SectionKind) -> nat {
    match kind {
        SectionKind::Beam => 3,
        _ => 1,
    }
}

/// Reading a section command `truss ID AREA`, `beam ID AREA I HEIGHT` or
/// `plane_stress ID THICKNESS`: the kind, the ID and the property fields.
pub open spec fn section_record(line: Seq<char>) -> Result<(SectionKind, usize, Seq<Seq<char>>), Seq<char>> {
    let fields = split_ws(line);
    if fields.len() == 0 {
        Err("expected a section type"@)
    } else {
        match section_keyword(fields[0]) {
            None => Err("unknown section type; use truss, beam, or plane_stress"@),
            Some(kind) => if fields.len() != section_property_count(kind) + 2 {
                Err(section_usage(kind))
            } else {
                match usize_field(fields[1], "section ID"@) {
                    Ok(id) => Ok((kind, id, fields.subrange(2, fields.len() as int))),
                    Err(m) => Err(m),
                }
            },
        }
    }
}

/// Copies each field into a string.
fn fields_to_strings(fields: &Vec<Vec<char>>, start: usize) -> (r: Vec<String>)
    requires
        start <= fields@.len(),
    ensures
        r@.map_values(|s: String| s@) == fields@.map_values(|f: Vec<char>| f@).subrange(
            start as int,
            fields@.len() as int,
        ),
{
    let mut out: Vec<String> = Vec::new();
    let mut k: usize = start;
    while k < fields.len()
        invariant
            start <= k <= fields@.len(),
            out@.map_values(|s: String| s@) == fields@.map_values(|f: Vec<char>| f@).subrange(
                start as int,
                k as int,
            ),
        decreases fields@.len() - k,
    {
        let ghost before = out@;
        let s = string_from_chars(&fields[k]);
        out.push(s);
        assert(fields@.map_values(|f: Vec<char>| f@)[k as int] == fields@[k as int]@);
        assert(out@.map_values(|s: String| s@).drop_last() =~= before.map_values(|s: String| s@));
        assert(out@.map_values(|s: String| s@) =~= fields@.map_values(|f: Vec<char>| f@).subrange(
            start as int,
            k + 1,
        ));
        k += 1;
    }
    out
}

/// Reads a command of `count` fields that starts with an unsigned integer.
fn parse_id_record(line: &str, count: usize, usage: &str, name: &str) -> (r: Result<(usize, Vec<Vec<char>>), String>)
    requires
        count > 0,
    ensures
        match id_record(line@, count as nat, usage@, name@) {
            Ok((id, rest)) => r matches Ok((i, fields)) && i == id && fields@.len() == count && fields@.map_values(
                |f: Vec<char>| f@,
            ).drop_first() == rest,
            Err(m) => r matches Err(e) && e@ == m,
        },
{
    let chars = chars_of(line);
    let fields = split_whitespace_chars(&chars);
    let ghost fv = fields@.map_values(|f: Vec<char>| f@);
    if fields.len() != count {
        return Err(String::from_str(usage));
    }
    assert(fv[0] == fields@[0]@);
    match parse_usize_field(&fields[0], name) {
        Ok(id) => Ok((id, fields)),
        Err(m) => Err(m),
    }
}

/// Reads a node command `ID X Y`: the node ID and the coordinate fields, which the
/// caller reads as numbers.
pub fn parse_node_fields(line: &str) -> (r: Result<(usize, Vec<String>), String>)
    ensures
        match node_record(line@) {
            Ok((id, rest)) => r matches Ok((i, v)) && i == id && v@.map_values(|s: String| s@) == rest,
            Err(m) => r matches Err(e) && e@ == m,
        },
{
    let (id, fields) = parse_id_record(line, 3, "expected: ID X Y", "node ID")?;
    let rest = fields_to_strings(&fields, 1);
    assert(fields@.map_values(|f: Vec<char>| f@).subrange(1, 3) =~= fields@.map_values(|f: Vec<char>| f@).drop_first());
    Ok((id, rest))
}

/// Reads a material command `ID YOUNG_MODULUS POISSON_RATIO DENSITY`: the material
/// ID and the property fields, which the caller reads as numbers.
pub fn parse_material_fields(line: &str) -> (r: Result<(usize, Vec<String>), String>)
    ensures
        match material_record(line@) {
            Ok((id, rest)) => r matches Ok((i, v)) && i == id && v@.map_values(|s: String| s@) == rest,
            Err(m) => r matches Err(e) && e@ == m,
        },
{
    let (id, fields) = parse_id_record(line, 4, "expected: ID YOUNG_MODULUS POISSON_RATIO DENSITY", "material ID")?;
    let rest = fields_to_strings(&fields, 1);
    assert(fields@.map_values(|f: Vec<char>| f@).subrange(1, 4) =~= fields@.map_values(|f: Vec<char>| f@).drop_first());
    Ok((id, rest))
}

/// Reads a constraint or load command `NODE_ID DOF VALUE`: the node ID, the degree of
/// freedom and the value field, which the caller reads as a number.
pub fn parse_nodal_value_fields(line: &str) -> (r: Result<(usize, Dof2D, String), String>)
    ensures
        match nodal_value_record(line@) {
            Ok((id, dof, value)) => r matches Ok((i, d, v)) && i == id && d == dof && v@ == value,
            Err(m) => r matches Err(e) && e@ == m,
        },
{
    let (id, fields) = parse_id_record(line, 3, "expected: NODE_ID DOF VALUE", "node ID")?;
    let ghost fv = fields@.map_values(|f: Vec<char>| f@);
    assert(fv.drop_first()[0] == fields@[1]@);
    assert(fv.drop_first()[1] == fields@[2]@);
    let dof = parse_dof_chars(&fields[1])?;
    let value = string_from_chars(&fields[2]);
    Ok((id, dof, value))
}

/// Reads the section kind keyword.
fn section_kind_of(keyword: &Vec<char>) -> (r: Option<SectionKind>)
    ensures
        r == section_keyword(keyword@),
{
    let key = to_ascii_lowercase_chars(keyword);
    if chars_eq(&key, "truss") {
        Some(SectionKind::Truss)
    } else if chars_eq(&key, "beam") {
        Some(SectionKind::Beam)
    } else if chars_eq(&key, "plane_stress") || chars_eq(&key, "plane-stress") || chars_eq(&key, "triangle")
        || chars_eq(&key, "triangle_t3") || chars_eq(&key, "t3") {
        Some(SectionKind::PlaneStress)
    } else {
        None
    }
}

/// Reads a section command `truss ID AREA`, `beam ID AREA I HEIGHT` or
/// `plane_stress ID THICKNESS`: the section kind, its ID and the property fields,
/// which the caller reads as numbers.
pub fn parse_section_fields(line: &str) -> (r: Result<(SectionKind, usize, Vec<String>), String>)
    ensures
        match section_record(line@) {
            Ok((kind, id, rest)) => r matches Ok((k, i, v)) && k == kind && i == id && v@.map_values(
                |s: String| s@,
            ) == rest,
            Err(m) => r matches Err(e) && e@ == m,
        },
{
    let chars = chars_of(line);
    let fields = split_whitespace_chars(&chars);
    let ghost fv = fields@.map_values(|f: Vec<char>| f@);
    assert(fv == split_ws(line@));
    if fields.len() == 0 {
        return Err(String::from_str("expected a section type"));
    }
    assert(fv[0] == fields@[0]@);
    let kind = match section_kind_of(&fields[0]) {
        Some(kind) => kind,
        None => {
            return Err(String::from_str("unknown section type; use truss, beam, or plane_stress"));
        },
    };
    let count: usize = match kind {
        SectionKind::Beam => 5,
        _ => 3,
    };
    if fields.len() != count {
        let usage = match kind {
            SectionKind::Truss => String::from_str("expected: truss ID AREA"),
            SectionKind::Beam => String::from_str("expected: beam ID AREA I HEIGHT"),
            SectionKind::PlaneStress => String::from_str("expected: plane_stress ID THICKNESS"),
        };
        return Err(usage);
    }
    assert(fv[1] == fields@[1]@);
    let id = parse_usize_field(&fields[1], "section ID")?;
    let rest = fields_to_strings(&fields, 2);
    Ok((kind, id, rest))
}

/// A load command of the interactive session; the load values are kept as the text
/// that the session reads as numbers.
#[derive(Debug, Clone, PartialEq)]
pub enum LoadCommand {
    /// `NODE_ID DOF VALUE`
    Nodal { node_id: usize, dof: Dof2D, value: String },
    /// `beam_uniform ELEMENT_ID local|global QX QY`
    BeamUniform { element_id: usize, system: LoadCoordinateSystem2D, x: String, y: String },
    /// `edge_traction ELEMENT_ID NODE_A NODE_B local|global TX TY`
    EdgeTraction {
        element_id: usize,
        edge_node_ids: [usize; 2],
        system: LoadCoordinateSystem2D,
        x: String,
        y: String,
    },
    /// `body_force ELEMENT_ID global BX BY`
    BodyForce { element_id: usize, x: String, y: String },
    /// `self_weight ELEMENT_ID global AX AY`
    SelfWeight { element_id: usize, x: String, y: String },
}

/// A load command with its value fields as character sequences.
pub enum LoadRecord {
    Nodal { node_id: usize, dof: Dof2D, value: Seq<char> },
    BeamUniform { element_id: usize, system: LoadCoordinateSystem2D, x: Seq<char>, y: Seq<char> },
    EdgeTraction {
        element_id: usize,
        edge_node_ids: Seq<usize>,
        system: LoadCoordinateSystem2D,
        x: Seq<char>,
        y: Seq<char>,
    },
    BodyForce { element_id: usize, x: Seq<char>, y: Seq<char> },
    SelfWeight { element_id: usize, x: Seq<char>, y: Seq<char> },
}

impl View for LoadCommand {
    type V = LoadRecord;

    open spec fn view(&self) -> LoadRecord {
        match self {
            LoadCommand::Nodal { node_id, dof, value } => LoadRecord::Nodal {
                node_id: *node_id,
                dof: *dof,
                value: value@,
            },
            LoadCommand::BeamUniform { element_id, system, x, y } => LoadRecord::BeamUniform {
                element_id: *element_id,
                system: *system,
                x: x@,
                y: y@,
            },
            LoadCommand::EdgeTraction { element_id, edge_node_ids, system, x, y } => LoadRecord::EdgeTraction {
                element_id: *element_id,
                edge_node_ids: edge_node_ids@,
                system: *system,
                x: x@,
                y: y@,
            },
            LoadCommand::BodyForce { element_id, x, y } => LoadRecord::BodyForce {
                element_id: *element_id,
                x: x@,
                y: y@,
            },
            LoadCommand::SelfWeight { element_id, x, y } => LoadRecord::SelfWeight {
                element_id: *element_id,
                x: x@,
                y: y@,
            },
        }
    }
}

/// The element load kind named by the first field of a load command.
pub open spec fn load_keyword(keyword: Seq<char>) -> Option<ElementLoadKind> {
    let k = ascii_lowercase(keyword);
    if k == "beam_uniform"@ {
        Some(ElementLoadKind::BeamUniformLine)
    } else if k == "edge_traction"@ {
        Some(ElementLoadKind::EdgeTraction)
    } else if k == "body_force"@ {
        Some(ElementLoadKind::BodyForce)
    } else if k == "self_weight"@ {
        Some(ElementLoadKind::SelfWeight)
    } else {
        None
    }
}

/// The coordinate system named by a field: `local` or `global`, in any ASCII case.
pub open spec fn coordinate_keyword(field: Seq<char>) -> Option<LoadCoordinateSystem2D> {
    let k = ascii_lowercase(field);
    if k == "local"@ {
        Some(LoadCoordinateSystem2D::Local)
    } else if k == "global"@ {
        Some(LoadCoordinateSystem2D::Global)
    } else {
        None
    }
}

/// Message for a field that names no coordinate system.
pub open spec fn unknown_coordinate_system_message() -> Seq<char> {
    "unknown coordinate system; use local or global"@
}

/// Usage message of an element load command.
pub open spec fn load_usage(kind: ElementLoadKind) -> Seq<char> {
    match kind {
        ElementLoadKind::BeamUniformLine => "expected: beam_uniform ELEMENT_ID local|global QX QY"@,
        ElementLoadKind::EdgeTraction => "expected: edge_traction ELEMENT_ID NODE_A NODE_B local|global TX TY"@,
        ElementLoadKind::BodyForce => "expected: body_force ELEMENT_ID global BX BY"@,
        ElementLoadKind::SelfWeight => "expected: self_weight ELEMENT_ID global AX AY"@,
    }
}

/// Number of fields of an element load command.
pub open spec fn load_field_count(kind: ElementLoadKind) -> nat {
    match kind {
        ElementLoadKind::EdgeTraction => 7,
        _ => 5,
    }
}

/// Reading the fields of an element load command of kind `kind`.
pub open spec fn element_load_record(kind: ElementLoadKind, fields: Seq<Seq<char>>) -> Result<LoadRecord, Seq<char>> {
    if fields.len() != load_field_count(kind) {
        Err(load_usage(kind))
    } else {
        match usize_field(fields[1], "element ID"@) {
            Err(m) => Err(m),
            Ok(id) => match kind {
                ElementLoadKind::BeamUniformLine => match coordinate_keyword(fields[2]) {
                    None => Err(unknown_coordinate_system_message()),
                    Some(system) => Ok(LoadRecord::BeamUniform { element_id: id, system, x: fields[3], y: fields[4] }),
                },
                ElementLoadKind::EdgeTraction => match usize_field(fields[2], "first edge node ID"@) {
                    Err(m) => Err(m),
                    Ok(a) => match usize_field(fields[3], "second edge node ID"@) {
                        Err(m) => Err(m),
                        Ok(b) => match coordinate_keyword(fields[4]) {
                            None => Err(unknown_coordinate_system_message()),
                            Some(system) => Ok(
                                LoadRecord::EdgeTraction {
                                    element_id: id,
                                    edge_node_ids: seq![a, b],
                                    system,
                                    x: fields[5],
                                    y: fields[6],
                                },
                            ),
                        },
                    },
                },
                ElementLoadKind::BodyForce => if ascii_lowercase(fields[2]) == "global"@ {
                    Ok(LoadRecord::BodyForce { element_id: id, x: fields[3], y: fields[4] })
                } else {
                    Err(load_usage(kind))
                },
                ElementLoadKind::SelfWeight => if ascii_lowercase(fields[2]) == "global"@ {
                    Ok(LoadRecord::SelfWeight { element_id: id, x: fields[3], y: fields[4] })
                } else {
                    Err(load_usage(kind))
                },
            },
        }
    }
}

/// Reading a load command: an element load when the first field names one, else a
/// nodal load `NODE_ID DOF VALUE`.
pub open spec fn load_record(line: Seq<char>) -> Result<LoadRecord, Seq<char>> {
    let fields = split_ws(line);
    if fields.len() > 0 && load_keyword(fields[0]) is Some {
        element_load_record(load_keyword(fields[0])->0, fields)
    } else {
        match nodal_value_record(line) {
            Ok((node_id, dof, value)) => Ok(LoadRecord::Nodal { node_id, dof, value }),
            Err(m) => Err(m),
        }
    }
}

/// Reads the element load keyword.
fn load_kind_of(keyword: &Vec<char>) -> (r: Option<ElementLoadKind>)
    ensures
        r == load_keyword(keyword@),
{
    let key = to_ascii_lowercase_chars(keyword);
    if chars_eq(&key, "beam_uniform") {
        Some(ElementLoadKind::BeamUniformLine)
    } else if chars_eq(&key, "edge_traction") {
        Some(ElementLoadKind::EdgeTraction)
    } else if chars_eq(&key, "body_force") {
        Some(ElementLoadKind::BodyForce)
    } else if chars_eq(&key, "self_weight") {
        Some(ElementLoadKind::SelfWeight)
    } else {
        None
    }
}

/// Reads a coordinate system keyword.
fn coordinate_system_of(field: &Vec<char>) -> (r: Result<LoadCoordinateSystem2D, String>)
    ensures
        coordinate_keyword(field@) matches Some(system) ==> r == Ok::<LoadCoordinateSystem2D, String>(system),
        coordinate_keyword(field@) is None ==> (r matches Err(m) && m@ == unknown_coordinate_system_message()),
{
    let key = to_ascii_lowercase_chars(field);
    if chars_eq(&key, "local") {
        Ok(LoadCoordinateSystem2D::Local)
    } else if chars_eq(&key, "global") {
        Ok(LoadCoordinateSystem2D::Global)
    } else {
        Err(String::from_str("unknown coordinate system; use local or global"))
    }
}

/// Usage message of an element load command.
fn load_usage_message(kind: ElementLoadKind) -> (m: String)
    ensures
        m@ == load_usage(kind),
{
    match kind {
        ElementLoadKind::BeamUniformLine => String::from_str("expected: beam_uniform ELEMENT_ID local|global QX QY"),
        ElementLoadKind::EdgeTraction => String::from_str(
            "expected: edge_traction ELEMENT_ID NODE_A NODE_B local|global TX TY",
        ),
        ElementLoadKind::BodyForce => String::from_str("expected: body_force ELEMENT_ID global BX BY"),
        ElementLoadKind::SelfWeight => String::from_str("expected: self_weight ELEMENT_ID global AX AY"),
    }
}

/// Reads the fields of an element load command of kind `kind`.
fn parse_element_load_fields(kind: ElementLoadKind, fields: &Vec<Vec<char>>) -> (r: Result<LoadCommand, String>)
    ensures
        match element_load_record(kind, fields@.map_values(|f: Vec<char>| f@)) {
            Ok(rec) => r matches Ok(c) && c@ == rec,
            Err(m) => r matches Err(e) && e@ == m,
        },
{
    let ghost fv = fields@.map_values(|f: Vec<char>| f@);
    let count: usize = match kind {
        ElementLoadKind::EdgeTraction => 7,
        _ => 5,
    };
    if fields.len() != count {
        return Err(load_usage_message(kind));
    }
    assert(fv[1] == fields@[1]@);
    assert(fv[2] == fields@[2]@);
    assert(fv[3] == fields@[3]@);
    assert(fv[4] == fields@[4]@);
    let element_id = parse_usize_field(&fields[1], "element ID")?;
    match kind {
        ElementLoadKind::BeamUniformLine => {
            let system = coordinate_system_of(&fields[2])?;
            Ok(
                LoadCommand::BeamUniform {
                    element_id,
                    system,
                    x: string_from_chars(&fields[3]),
                    y: string_from_chars(&fields[4]),
                },
            )
        },
        ElementLoadKind::EdgeTraction => {
            assert(fv[5] == fields@[5]@);
            assert(fv[6] == fields@[6]@);
            let a = parse_usize_field(&fields[2], "first edge node ID")?;
            let b = parse_usize_field(&fields[3], "second edge node ID")?;
            let system = coordinate_system_of(&fields[4])?;
            let edge_node_ids = [a, b];
            assert(edge_node_ids@ =~= seq![a, b]);
            Ok(
                LoadCommand::EdgeTraction {
                    element_id,
                    edge_node_ids,
                    system,
                    x: string_from_chars(&fields[5]),
                    y: string_from_chars(&fields[6]),
                },
            )
        },
        ElementLoadKind::BodyForce => {
            let key = to_ascii_lowercase_chars(&fields[2]);
            if !chars_eq(&key, "global") {
                return Err(load_usage_message(kind));
            }
            Ok(
                LoadCommand::BodyForce {
                    element_id,
                    x: string_from_chars(&fields[3]),
                    y: string_from_chars(&fields[4]),
                },
            )
        },
        ElementLoadKind::SelfWeight => {
            let key = to_ascii_lowercase_chars(&fields[2]);
            if !chars_eq(&key, "global") {
                return Err(load_usage_message(kind));
            }
            Ok(
                LoadCommand::SelfWeight {
                    element_id,
                    x: string_from_chars(&fields[3]),
                    y: string_from_chars(&fields[4]),
                },
            )
        },
    }
}

/// Parses a load command: `NODE_ID DOF VALUE` for a nodal load, or one of
/// `beam_uniform ELEMENT_ID local|global QX QY`,
/// `edge_traction ELEMENT_ID NODE_A NODE_B local|global TX TY`,
/// `body_force ELEMENT_ID global BX BY` and `self_weight ELEMENT_ID global AX AY`;
/// keywords are matched in any ASCII case.
pub fn parse_load_command(line: &str) -> (r: Result<LoadCommand, String>)
    ensures
        match load_record(line@) {
            Ok(rec) => r matches Ok(c) && c@ == rec,
            Err(m) => r matches Err(e) && e@ == m,
        },
{
    let chars = chars_of(line);
    let fields = split_whitespace_chars(&chars);
    let ghost fv = fields@.map_values(|f: Vec<char>| f@);
    assert(fv == split_ws(line@));
    if fields.len() > 0 {
        assert(fv[0] == fields@[0]@);
        if let Some(kind) = load_kind_of(&fields[0]) {
            return parse_element_load_fields(kind, &fields);
        }
    }
    let (node_id, dof, value) = parse_nodal_value_fields(line)?;
    Ok(LoadCommand::Nodal { node_id, dof, value })
}

} // verus!
