//! Mesh topology used by the SVG export: element outlines, free boundary edges and
//! text escaping. Coordinates and colours are handled by the renderer.
use vstd::prelude::*;

use crate::analysis::load_vector::{
    edge_positions, first_position, lemma_q8_edge_positions, lemma_t6_edge_positions, EdgeNodePositions,
};
use crate::elements::element_2d::{all_distinct, ids_to_vec, Element2D};
use crate::text::push_char;

verus! {

/// Undirected edge between two nodes, stored with the smaller node ID first.
#[derive(Clone, Copy, Debug, Eq, Hash, PartialEq, Structural)]
pub struct EdgeKey {
    pub first: usize,
    pub second: usize,
}

impl EdgeKey {
    /// Creates the key of the undirected edge between two nodes.
    pub fn new(first: usize, second: usize) -> (r: Self)
        ensures
            r == edge_key_of(first, second),
    {
        if first <= second {
            EdgeKey { first, second }
        } else {
            EdgeKey { first: second, second: first }
        }
    }
}

/// The key of the undirected edge between `a` and `b`.
pub open spec fn edge_key_of(a: usize, b: usize) -> EdgeKey {
    if a <= b {
        EdgeKey { first: a, second: b }
    } else {
        EdgeKey { first: b, second: a }
    }
}

/// The key of an edge given by its node list: its two end nodes, unordered.
pub open spec fn edge_key(edge: Seq<usize>) -> EdgeKey {
    edge_key_of(edge[0], edge.last())
}

/// A free edge of the mesh, given by its nodes from one end to the other.
#[derive(Clone, Debug)]
pub struct BoundaryEdge {
    pub node_ids: Vec<usize>,
}

/// The closed outline of an element, through its mid-side nodes.
pub open spec fn outline(element: Element2D) -> Seq<usize> {
    let n = element.spec_node_ids();
    match element {
        Element2D::Truss(_) | Element2D::Beam(_) => seq![n[0], n[1]],
        Element2D::TriangleT3(_) => seq![n[0], n[1], n[2], n[0]],
        Element2D::TriangleT6(_) => seq![n[0], n[3], n[1], n[4], n[2], n[5], n[0]],
        Element2D::QuadQ4(_) => seq![n[0], n[1], n[2], n[3], n[0]],
        Element2D::QuadQ8(_) => seq![n[0], n[4], n[1], n[5], n[2], n[6], n[3], n[7], n[0]],
    }
}

/// The boundary edges of one element; line elements have none.
pub open spec fn element_edges(element: Element2D) -> Seq<Seq<usize>> {
    let n = element.spec_node_ids();
    match element {
        Element2D::Truss(_) | Element2D::Beam(_) => seq![],
        Element2D::TriangleT3(_) => seq![seq![n[0], n[1]], seq![n[1], n[2]], seq![n[2], n[0]]],
        Element2D::TriangleT6(_) => seq![
            seq![n[0], n[3], n[1]],
            seq![n[1], n[4], n[2]],
            seq![n[2], n[5], n[0]],
        ],
        Element2D::QuadQ4(_) => seq![seq![n[0], n[1]], seq![n[1], n[2]], seq![n[2], n[3]], seq![n[3], n[0]]],
        Element2D::QuadQ8(_) => seq![
            seq![n[0], n[4], n[1]],
            seq![n[1], n[5], n[2]],
            seq![n[2], n[6], n[3]],
            seq![n[3], n[7], n[0]],
        ],
    }
}

/// All element edges, element by element.
pub open spec fn mesh_edges(elements: Seq<Element2D>) -> Seq<Seq<usize>>
    decreases elements.len(),
{
    if elements.len() == 0 {
        seq![]
    } else {
        mesh_edges(elements.drop_last()) + element_edges(elements.last())
    }
}

/// How many of `edges` have the key `key`.
pub open spec fn key_count(edges: Seq<Seq<usize>>, key: EdgeKey) -> nat
    decreases edges.len(),
{
    if edges.len() == 0 {
        0
    } else {
        key_count(edges.drop_last(), key) + if edge_key(edges.last()) == key {
            1nat
        } else {
            0nat
        }
    }
}

/// The edges of `edges` whose key occurs exactly once in `all`, in order.
pub open spec fn unshared(edges: Seq<Seq<usize>>, all: Seq<Seq<usize>>) -> Seq<Seq<usize>>
    decreases edges.len(),
{
    if edges.len() == 0 {
        seq![]
    } else {
        unshared(edges.drop_last(), all) + if key_count(all, edge_key(edges.last())) == 1 {
            seq![edges.last()]
        } else {
            seq![]
        }
    }
}

/// The free boundary of a mesh: the element edges that no other element edge
/// shares, in element order.
pub open spec fn free_boundary(elements: Seq<Element2D>) -> Seq<Seq<usize>> {
    unshared(mesh_edges(elements), mesh_edges(elements))
}

/// Returns the node IDs along the closed outline of an element.
pub fn element_outline_node_ids(element: &Element2D) -> (r: Vec<usize>)
    ensures
        r@ == outline(*element),
{
    let n = element.node_ids();
    proof {
        element.lemma_node_count();
    }
    let mut v: Vec<usize> = Vec::new();
    match element {
        Element2D::Truss(_) | Element2D::Beam(_) => {
            v.push(n[0]);
            v.push(n[1]);
        },
        Element2D::TriangleT3(_) => {
            v.push(n[0]);
            v.push(n[1]);
            v.push(n[2]);
            v.push(n[0]);
        },
        Element2D::TriangleT6(_) => {
            v.push(n[0]);
            v.push(n[3]);
            v.push(n[1]);
            v.push(n[4]);
            v.push(n[2]);
            v.push(n[5]);
            v.push(n[0]);
        },
        Element2D::QuadQ4(_) => {
            v.push(n[0]);
            v.push(n[1]);
            v.push(n[2]);
            v.push(n[3]);
            v.push(n[0]);
        },
        Element2D::QuadQ8(_) => {
            v.push(n[0]);
            v.push(n[4]);
            v.push(n[1]);
            v.push(n[5]);
            v.push(n[2]);
            v.push(n[6]);
            v.push(n[3]);
            v.push(n[7]);
            v.push(n[0]);
        },
    }
    assert(v@ =~= outline(*element));
    v
}

fn pair(a: usize, b: usize) -> (v: Vec<usize>)
    ensures
        v@ == seq![a, b],
{
    let mut v: Vec<usize> = Vec::new();
    v.push(a);
    v.push(b);
    assert(v@ =~= seq![a, b]);
    v
}

fn triple(a: usize, b: usize, c: usize) -> (v: Vec<usize>)
    ensures
        v@ == seq![a, b, c],
{
    let mut v: Vec<usize> = Vec::new();
    v.push(a);
    v.push(b);
    v.push(c);
    assert(v@ =~= seq![a, b, c]);
    v
}

/// Returns the boundary edges of one element, each from one corner to the next,
/// through the mid-side node where there is one.
pub fn element_boundary_edge_node_ids(element: &Element2D) -> (r: Vec<Vec<usize>>)
    ensures
        r@.map_values(|e: Vec<usize>| e@) == element_edges(*element),
{
    let n = element.node_ids();
    proof {
        element.lemma_node_count();
    }
    let mut edges: Vec<Vec<usize>> = Vec::new();
    match element {
        Element2D::Truss(_) | Element2D::Beam(_) => {},
        Element2D::TriangleT3(_) => {
            edges.push(pair(n[0], n[1]));
            edges.push(pair(n[1], n[2]));
            edges.push(pair(n[2], n[0]));
        },
        Element2D::TriangleT6(_) => {
            edges.push(triple(n[0], n[3], n[1]));
            edges.push(triple(n[1], n[4], n[2]));
            edges.push(triple(n[2], n[5], n[0]));
        },
        Element2D::QuadQ4(_) => {
            edges.push(pair(n[0], n[1]));
            edges.push(pair(n[1], n[2]));
            edges.push(pair(n[2], n[3]));
            edges.push(pair(n[3], n[0]));
        },
        Element2D::QuadQ8(_) => {
            edges.push(triple(n[0], n[4], n[1]));
            edges.push(triple(n[1], n[5], n[2]));
            edges.push(triple(n[2], n[6], n[3]));
            edges.push(triple(n[3], n[7], n[0]));
        },
    }
    assert(edges@.map_values(|e: Vec<usize>| e@) =~= element_edges(*element));
    edges
}

/// Every edge of a mesh has at least two nodes.
proof fn lemma_mesh_edges_nonempty(elements: Seq<Element2D>)
    ensures
        forall|k: int| 0 <= k < mesh_edges(elements).len() ==> (#[trigger] mesh_edges(elements)[k]).len() >= 2,
    decreases elements.len(),
{
    if elements.len() > 0 {
        lemma_mesh_edges_nonempty(elements.drop_last());
        let head = mesh_edges(elements.drop_last());
        let tail = element_edges(elements.last());
        elements.last().lemma_node_count();
        assert forall|k: int| 0 <= k < mesh_edges(elements).len() implies (#[trigger] mesh_edges(
            elements,
        )[k]).len() >= 2 by {
            if k < head.len() {
                assert(mesh_edges(elements)[k] == head[k]);
            } else {
                assert(mesh_edges(elements)[k] == tail[k - head.len()]);
            }
        }
    }
}

/// Collects the edges of all elements, element by element.
fn collect_edges(elements: &Vec<Element2D>) -> (edges: Vec<Vec<usize>>)
    ensures
        edges@.map_values(|e: Vec<usize>| e@) == mesh_edges(elements@),
{
    let mut edges: Vec<Vec<usize>> = Vec::new();
    let mut i: usize = 0;
    while i < elements.len()
        invariant
            i <= elements@.len(),
            edges@.map_values(|e: Vec<usize>| e@) == mesh_edges(elements@.take(i as int)),
        decreases elements@.len() - i,
    {
        let element_edges_v = element_boundary_edge_node_ids(&elements[i]);
        let ghost before = edges@.map_values(|e: Vec<usize>| e@);
        let ghost ev = element_edges_v@.map_values(|e: Vec<usize>| e@);
        assert(ev == element_edges(elements@[i as int]));
        let mut j: usize = 0;
        while j < element_edges_v.len()
            invariant
                j <= element_edges_v@.len(),
                ev == element_edges_v@.map_values(|e: Vec<usize>| e@),
                edges@.map_values(|e: Vec<usize>| e@) == before + ev.take(j as int),
            decreases element_edges_v@.len() - j,
        {
            let copy = ids_to_vec(element_edges_v[j].as_slice());
            assert(copy@ == ev[j as int]);
            let ghost old_view = edges@.map_values(|e: Vec<usize>| e@);
            edges.push(copy);
            assert(edges@.map_values(|e: Vec<usize>| e@) =~= old_view.push(copy@));
            assert(ev.take(j + 1) =~= ev.take(j as int).push(ev[j as int]));
            assert(edges@.map_values(|e: Vec<usize>| e@) =~= before + ev.take(j + 1));
            j += 1;
        }
        assert(ev.take(ev.len() as int) =~= ev);
        assert(elements@.take(i + 1).drop_last() =~= elements@.take(i as int));
        i += 1;
    }
    assert(elements@.take(elements@.len() as int) =~= elements@);
    edges
}

/// Counts the keys equal to `key`.
fn count_key(keys: &Vec<EdgeKey>, key: EdgeKey, Ghost(edges): Ghost<Seq<Seq<usize>>>) -> (r: usize)
    requires
        keys@.len() == edges.len(),
        forall|k: int| 0 <= k < keys@.len() ==> #[trigger] keys@[k] == edge_key(edges[k]),
    ensures
        r == key_count(edges, key),
{
    let mut count: usize = 0;
    let mut i: usize = 0;
    while i < keys.len()
        invariant
            i <= keys@.len(),
            keys@.len() == edges.len(),
            forall|k: int| 0 <= k < keys@.len() ==> #[trigger] keys@[k] == edge_key(edges[k]),
            count == key_count(edges.take(i as int), key),
            count <= i,
        decreases keys@.len() - i,
    {
        assert(edges.take(i + 1).drop_last() =~= edges.take(i as int));
        if keys[i] == key {
            count += 1;
        }
        i += 1;
    }
    assert(edges.take(edges.len() as int) =~= edges);
    count
}

/// Returns the free boundary edges of a mesh: the element edges that are not shared
/// with another element edge (compared by their end nodes, in either direction), in
/// element order.
pub fn boundary_edges(elements: &Vec<Element2D>) -> (r: Vec<BoundaryEdge>)
    ensures
        r@.map_values(|e: BoundaryEdge| e.node_ids@) == free_boundary(elements@),
{
    let edges = collect_edges(elements);
    let ghost all = edges@.map_values(|e: Vec<usize>| e@);
    proof {
        lemma_mesh_edges_nonempty(elements@);
    }
    let mut keys: Vec<EdgeKey> = Vec::new();
    let mut i: usize = 0;
    while i < edges.len()
        invariant
            i <= edges@.len(),
            all == edges@.map_values(|e: Vec<usize>| e@),
            all == mesh_edges(elements@),
            forall|k: int| 0 <= k < all.len() ==> (#[trigger] all[k]).len() >= 2,
            keys@.len() == i,
            forall|k: int| 0 <= k < i ==> #[trigger] keys@[k] == edge_key(all[k]),
        decreases edges@.len() - i,
    {
        let edge = &edges[i];
        assert(edge@ == all[i as int]);
        let last = edge.len() - 1;
        keys.push(EdgeKey::new(edge[0], edge[last]));
        i += 1;
    }
    let mut result: Vec<BoundaryEdge> = Vec::new();
    let mut i: usize = 0;
    while i < edges.len()
        invariant
            i <= edges@.len(),
            all == edges@.map_values(|e: Vec<usize>| e@),
            keys@.len() == all.len(),
            forall|k: int| 0 <= k < keys@.len() ==> #[trigger] keys@[k] == edge_key(all[k]),
            result@.map_values(|e: BoundaryEdge| e.node_ids@) == unshared(all.take(i as int), all),
        decreases edges@.len() - i,
    {
        let ghost prefix = all.take(i + 1);
        assert(prefix.drop_last() =~= all.take(i as int));
        assert(prefix.last() == all[i as int]);
        if count_key(&keys, keys[i], Ghost(all)) == 1 {
            let copy = ids_to_vec(edges[i].as_slice());
            result.push(BoundaryEdge { node_ids: copy });
        }
        assert(result@.map_values(|e: BoundaryEdge| e.node_ids@) =~= unshared(prefix, all));
        i += 1;
    }
    assert(all.take(all.len() as int) =~= all);
    result
}

/// An edge is on the free boundary exactly when it is an element edge whose end
/// nodes no other element edge joins.
pub proof fn lemma_free_boundary_characterization(elements: Seq<Element2D>, edge: Seq<usize>)
    ensures
        free_boundary(elements).contains(edge) <==> (mesh_edges(elements).contains(edge) && key_count(
            mesh_edges(elements),
            edge_key(edge),
        ) == 1),
{
    lemma_unshared_members(mesh_edges(elements), mesh_edges(elements), edge);
}

proof fn lemma_unshared_members(edges: Seq<Seq<usize>>, all: Seq<Seq<usize>>, edge: Seq<usize>)
    ensures
        unshared(edges, all).contains(edge) <==> (edges.contains(edge) && key_count(all, edge_key(edge)) == 1),
    decreases edges.len(),
{
    if edges.len() > 0 {
        let prev = edges.drop_last();
        lemma_unshared_members(prev, all, edge);
        let head = unshared(prev, all);
        let whole = unshared(edges, all);
        if whole.contains(edge) {
            let k = choose|k: int| 0 <= k < whole.len() && whole[k] == edge;
            if k < head.len() {
                assert(head[k] == edge);
                let j = choose|j: int| 0 <= j < prev.len() && prev[j] == edge;
                assert(edges[j] == prev[j]);
            } else {
                assert(edges[edges.len() - 1] == edge);
            }
        }
        if edges.contains(edge) && key_count(all, edge_key(edge)) == 1 {
            let j = choose|j: int| 0 <= j < edges.len() && edges[j] == edge;
            if j < prev.len() {
                assert(prev[j] == edge);
                let k = choose|k: int| 0 <= k < head.len() && head[k] == edge;
                assert(whole[k] == head[k]);
            } else {
                assert(whole[head.len() as int] == edge);
            }
        }
    }
}

/// The XML escape of one character.
pub open spec fn escape_char(c: char) -> Seq<char> {
    if c == '&' {
        "&amp;"@
    } else if c == '<' {
        "&lt;"@
    } else if c == '>' {
        "&gt;"@
    } else {
        seq![c]
    }
}

/// `text` with `&`, `<` and `>` replaced by their XML entities.
pub open spec fn escape_xml_text(text: Seq<char>) -> Seq<char>
    decreases text.len(),
{
    if text.len() == 0 {
        seq![]
    } else {
        escape_xml_text(text.drop_last()) + escape_char(text.last())
    }
}

/// Escapes `&`, `<` and `>` for use in SVG text content.
pub fn escape_xml(text: &str) -> (r: String)
    ensures
        r@ == escape_xml_text(text@),
{
    let mut out = String::new();
    let mut i: usize = 0;
    let mut chars: Vec<char> = Vec::new();
    for c in it: text.chars()
        invariant
            chars@ == it.seq().take(it.index() as int),
            it.seq() == text@,
            out@ == escape_xml_text(chars@),
    {
        let ghost before = chars@;
        if c == '&' {
            out.append("&amp;");
        } else if c == '<' {
            out.append("&lt;");
        } else if c == '>' {
            out.append("&gt;");
        } else {
            push_char(&mut out, c);
        }
        chars.push(c);
        assert(chars@.drop_last() =~= before);
        assert(out@ =~= escape_xml_text(chars@));
    }
    assert(chars@ =~= text@);
    out
}

/// The style sheet shared by the exported SVG documents, followed by a line break.
pub open spec fn svg_style_sheet() -> Seq<char> {
    "<style>\n  .background { fill: #ffffff; }\n  .mesh-edge { fill: none; stroke: #9ca3af; stroke-width: 0.7; vector-effect: non-scaling-stroke; }\n  .scalar-element { stroke: none; }\n  .scalar-patch { stroke: none; shape-rendering: geometricPrecision; }\n  .scalar-mesh-edge { stroke: rgba(17, 24, 39, 0.28); stroke-width: 0.45; }\n  .boundary-edge { fill: none; stroke: #111827; stroke-width: 1.8; vector-effect: non-scaling-stroke; stroke-linecap: round; stroke-linejoin: round; }\n  .node { fill: #2563eb; opacity: 0.75; }\n  .legend-background { fill: #f8fafc; stroke: #cbd5e1; stroke-width: 1; }\n  .legend-title { fill: #0f172a; font-family: system-ui, -apple-system, BlinkMacSystemFont, \"Segoe UI\", sans-serif; font-size: 14px; font-weight: 650; }\n  .legend-text { fill: #334155; font-family: system-ui, -apple-system, BlinkMacSystemFont, \"Segoe UI\", sans-serif; font-size: 12px; }\n  .legend-tick { stroke: #64748b; stroke-width: 0.8; vector-effect: non-scaling-stroke; }\n  .legend-axis { stroke: #94a3b8; stroke-width: 0.8; vector-effect: non-scaling-stroke; }\n</style>\n"@
}

/// Appends the SVG style sheet.
pub fn write_styles(svg: &mut String)
    ensures
        final(svg)@ == old(svg)@ + svg_style_sheet(),
{
    svg.append("<style>\n  .background { fill: #ffffff; }\n  .mesh-edge { fill: none; stroke: #9ca3af; stroke-width: 0.7; vector-effect: non-scaling-stroke; }\n  .scalar-element { stroke: none; }\n  .scalar-patch { stroke: none; shape-rendering: geometricPrecision; }\n  .scalar-mesh-edge { stroke: rgba(17, 24, 39, 0.28); stroke-width: 0.45; }\n  .boundary-edge { fill: none; stroke: #111827; stroke-width: 1.8; vector-effect: non-scaling-stroke; stroke-linecap: round; stroke-linejoin: round; }\n  .node { fill: #2563eb; opacity: 0.75; }\n  .legend-background { fill: #f8fafc; stroke: #cbd5e1; stroke-width: 1; }\n  .legend-title { fill: #0f172a; font-family: system-ui, -apple-system, BlinkMacSystemFont, \"Segoe UI\", sans-serif; font-size: 14px; font-weight: 650; }\n  .legend-text { fill: #334155; font-family: system-ui, -apple-system, BlinkMacSystemFont, \"Segoe UI\", sans-serif; font-size: 12px; }\n  .legend-tick { stroke: #64748b; stroke-width: 0.8; vector-effect: non-scaling-stroke; }\n  .legend-axis { stroke: #94a3b8; stroke-width: 0.8; vector-effect: non-scaling-stroke; }\n</style>\n");
}

/// Each boundary edge of a plane element runs from corner k to corner k + 1 around the
/// element (mod the number of corners c); on six-node triangles and eight-node
/// quadrilaterals it passes through the mid-side node at position c + k, so each
/// mid-side node lies on exactly one edge. Line elements have no boundary edges.
pub proof fn lemma_element_edges_layout(element: Element2D)
    ensures
        ({
            let n = element.spec_node_ids();
            let edges = element_edges(element);
            match element {
                Element2D::Truss(_) | Element2D::Beam(_) => edges.len() == 0,
                Element2D::TriangleT3(_) => edges.len() == 3 && forall|k: int|
                    0 <= k < 3 ==> #[trigger] edges[k] == seq![n[k], n[(k + 1) % 3]],
                Element2D::QuadQ4(_) => edges.len() == 4 && forall|k: int|
                    0 <= k < 4 ==> #[trigger] edges[k] == seq![n[k], n[(k + 1) % 4]],
                Element2D::TriangleT6(_) => edges.len() == 3 && forall|k: int|
                    0 <= k < 3 ==> #[trigger] edges[k] == seq![n[k], n[3 + k], n[(k + 1) % 3]],
                Element2D::QuadQ8(_) => edges.len() == 4 && forall|k: int|
                    0 <= k < 4 ==> #[trigger] edges[k] == seq![n[k], n[4 + k], n[(k + 1) % 4]],
            }
        }),
{
    let n = element.spec_node_ids();
    let edges = element_edges(element);
    match element {
        Element2D::TriangleT3(_) => {
            assert forall|k: int| 0 <= k < 3 implies #[trigger] edges[k] == seq![n[k], n[(k + 1) % 3]] by {
                if k == 0 {
                } else if k == 1 {
                } else {
                }
            }
        },
        Element2D::QuadQ4(_) => {
            assert forall|k: int| 0 <= k < 4 implies #[trigger] edges[k] == seq![n[k], n[(k + 1) % 4]] by {
                if k == 0 {
                } else if k == 1 {
                } else if k == 2 {
                } else {
                }
            }
        },
        Element2D::TriangleT6(_) => {
            assert forall|k: int| 0 <= k < 3 implies #[trigger] edges[k] == seq![n[k], n[3 + k], n[(k + 1) % 3]] by {
                if k == 0 {
                } else if k == 1 {
                } else {
                }
            }
        },
        Element2D::QuadQ8(_) => {
            assert forall|k: int| 0 <= k < 4 implies #[trigger] edges[k] == seq![n[k], n[4 + k], n[(k + 1) % 4]] by {
                if k == 0 {
                } else if k == 1 {
                } else if k == 2 {
                } else {
                }
            }
        },
        _ => {},
    }
}

/// The nodes named by edge positions of `element`.
pub open spec fn position_nodes(element: Element2D, positions: EdgeNodePositions) -> Seq<usize> {
    let n = element.spec_node_ids();
    match positions {
        EdgeNodePositions::Linear(p) => seq![n[p[0] as int], n[p[1] as int]],
        EdgeNodePositions::Quadratic(p) => seq![n[p[0] as int], n[p[1] as int], n[p[2] as int]],
    }
}

/// Every boundary edge of an element with distinct nodes, looked up as a loaded edge
/// by its two end nodes, is found, and the positions found name exactly the nodes of
/// the boundary edge, mid-side node included.
pub proof fn lemma_boundary_edges_are_load_edges(element: Element2D)
    requires
        all_distinct(element.spec_node_ids()),
    ensures
        forall|k: int, edge: [usize; 2]|
            0 <= k < element_edges(element).len() && edge[0] == (#[trigger] element_edges(element)[k])[0]
                && edge[1] == element_edges(element)[k].last() ==> (#[trigger] edge_positions(element, edge) matches Some(
                p,
            ) && position_nodes(element, p) == element_edges(element)[k]),
{
    let n = element.spec_node_ids();
    let edges = element_edges(element);
    element.lemma_node_count();
    lemma_element_edges_layout(element);
    assert forall|k: int, edge: [usize; 2]|
        0 <= k < edges.len() && edge[0] == (#[trigger] edges[k])[0] && edge[1] == edges[k].last() implies (
        #[trigger] edge_positions(element, edge) matches Some(p) && position_nodes(element, p) == edges[k]) by {
        match element {
            Element2D::TriangleT6(_) => {
                lemma_t6_edge_positions(n, edge);
                assert(edge[0] == n[k] && edge[1] == n[(k + 1) % 3]);
            },
            Element2D::QuadQ8(_) => {
                lemma_q8_edge_positions(n, edge);
                assert(edge[0] == n[k] && edge[1] == n[(k + 1) % 4]);
            },
            Element2D::TriangleT3(_) => {
                lemma_first_position_distinct(n, k);
                lemma_first_position_distinct(n, (k + 1) % 3);
            },
            Element2D::QuadQ4(_) => {
                lemma_first_position_distinct(n, k);
                lemma_first_position_distinct(n, (k + 1) % 4);
            },
            _ => {},
        }
    }
}

/// In a list of distinct IDs, the first position of the ID at position `k` is `k`.
proof fn lemma_first_position_distinct(ids: Seq<usize>, k: int)
    requires
        all_distinct(ids),
        0 <= k < ids.len(),
    ensures
        first_position(ids, ids[k]) == Some(k),
{
    assert(ids.contains(ids[k]));
    let c = choose|i: int| 0 <= i < ids.len() && ids[i] == ids[k] && forall|j: int| 0 <= j < i ==> ids[j] != ids[k];
    assert(forall|j: int| 0 <= j < k ==> ids[j] != ids[k]);
    if c < k {
        assert(ids[c] != ids[k]);
    } else if c > k {
        assert(ids[k] != ids[k]);
    }
}

/// The outline of a plane element walks its boundary edges in order and closes on its
/// first node: consecutive edges share their corner, and the outline passes through
/// every mid-side node; the outline of a line element is its two nodes.
pub proof fn lemma_outline_follows_edges(element: Element2D)
    ensures
        ({
            let o = outline(element);
            let edges = element_edges(element);
            match element {
                Element2D::Truss(_) | Element2D::Beam(_) => o == element.spec_node_ids(),
                Element2D::TriangleT3(_) | Element2D::QuadQ4(_) => o.len() == edges.len() + 1 && o[0] == o.last()
                    && forall|k: int| 0 <= k < edges.len() ==> #[trigger] edges[k] == o.subrange(k, k + 2),
                Element2D::TriangleT6(_) | Element2D::QuadQ8(_) => o.len() == 2 * edges.len() + 1 && o[0] == o.last()
                    && forall|k: int| 0 <= k < edges.len() ==> #[trigger] edges[k] == o.subrange(2 * k, 2 * k + 3),
            }
        }),
{
    let o = outline(element);
    let edges = element_edges(element);
    element.lemma_node_count();
    match element {
        Element2D::Truss(_) | Element2D::Beam(_) => {
            assert(o =~= element.spec_node_ids());
        },
        Element2D::TriangleT3(_) | Element2D::QuadQ4(_) => {
            assert forall|k: int| 0 <= k < edges.len() implies #[trigger] edges[k] == o.subrange(k, k + 2) by {
                assert(edges[k] =~= o.subrange(k, k + 2));
            }
        },
        Element2D::TriangleT6(_) | Element2D::QuadQ8(_) => {
            assert forall|k: int| 0 <= k < edges.len() implies #[trigger] edges[k] == o.subrange(2 * k, 2 * k + 3) by {
                assert(edges[k] =~= o.subrange(2 * k, 2 * k + 3));
            }
        },
    }
}

} // verus!
