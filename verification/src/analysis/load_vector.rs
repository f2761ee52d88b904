//! Where a loaded element edge sits in the element's connectivity list.
//!
//! An edge traction names its edge by the two end node IDs; the load assembly needs
//! the positions of the edge's nodes among the element's nodes, from the first end
//! node to the second.
use vstd::prelude::*;

use crate::elements::element_2d::{all_distinct, Element2D};

verus! {

/// Positions of an edge's nodes in the element's node list.
#[derive(Debug, Clone, Copy, PartialEq, Eq)]
pub enum EdgeNodePositions {
    /// The two end nodes of a straight edge.
    Linear([usize; 2]),
    /// First end node, mid-side node, second end node of a curved edge.
    Quadratic([usize; 3]),
}

/// The first position of `x` in `s`.
pub open spec fn first_position(s: Seq<usize>, x: usize) -> Option<int> {
    if s.contains(x) {
        Some(choose|i: int| 0 <= i < s.len() && s[i] == x && forall|j: int| 0 <= j < i ==> s[j] != x)
    } else {
        None
    }
}

/// Positions of a straight edge: both end nodes are element nodes, adjacent in the
/// cyclic node order.
pub open spec fn linear_edge(ids: Seq<usize>, edge: [usize; 2]) -> Option<[usize; 2]> {
    match (first_position(ids, edge[0]), first_position(ids, edge[1])) {
        (Some(a), Some(b)) => {
            let n = ids.len() as int;
            if (a + 1) % n == b || (b + 1) % n == a {
                Some([a as usize, b as usize])
            } else {
                None
            }
        },
        _ => None,
    }
}

/// Positions of a curved edge, trying the corner pairs `corners` with their mid-side
/// positions in order, each in both directions.
pub open spec fn quadratic_edge(ids: Seq<usize>, edge: [usize; 2], corners: Seq<(usize, usize, usize)>) -> Option<
    [usize; 3],
>
    decreases corners.len(),
{
    if corners.len() == 0 {
        None
    } else {
        let (a, b, mid) = corners[0];
        if edge[0] == ids[a as int] && edge[1] == ids[b as int] {
            Some([a, mid, b])
        } else if edge[0] == ids[b as int] && edge[1] == ids[a as int] {
            Some([b, mid, a])
        } else {
            quadratic_edge(ids, edge, corners.drop_first())
        }
    }
}

/// Corner pairs and mid-side positions of a six-node triangle.
pub open spec fn t6_edges() -> Seq<(usize, usize, usize)> {
    seq![(0usize, 1usize, 3usize), (1usize, 2usize, 4usize), (2usize, 0usize, 5usize)]
}

/// Corner pairs and mid-side positions of an eight-node quadrilateral.
pub open spec fn q8_edges() -> Seq<(usize, usize, usize)> {
    seq![(0usize, 1usize, 4usize), (1usize, 2usize, 5usize), (2usize, 3usize, 6usize), (3usize, 0usize, 7usize)]
}

/// The edge positions for an element of any type.
pub open spec fn edge_positions(element: Element2D, edge: [usize; 2]) -> Option<EdgeNodePositions> {
    let ids = element.spec_node_ids();
    match element {
        Element2D::TriangleT6(_) => match quadratic_edge(ids, edge, t6_edges()) {
            Some(p) => Some(EdgeNodePositions::Quadratic(p)),
            None => None,
        },
        Element2D::QuadQ8(_) => match quadratic_edge(ids, edge, q8_edges()) {
            Some(p) => Some(EdgeNodePositions::Quadratic(p)),
            None => None,
        },
        _ => match linear_edge(ids, edge) {
            Some(p) => Some(EdgeNodePositions::Linear(p)),
            None => None,
        },
    }
}

/// Finds the first position of `x`.
fn position(s: &[usize], x: usize) -> (r: Option<usize>)
    ensures
        r matches Some(i) ==> first_position(s@, x) == Some(i as int) && i < s@.len(),
        r is None ==> first_position(s@, x) is None,
{
    let mut i: usize = 0;
    while i < s.len()
        invariant
            i <= s@.len(),
            forall|j: int| 0 <= j < i ==> s@[j] != x,
        decreases s@.len() - i,
    {
        if s[i] == x {
            proof {
                let c = choose|c: int| 0 <= c < s@.len() && s@[c] == x && forall|j: int| 0 <= j < c ==> s@[j] != x;
                if c < i {
                } else if c > i {
                    assert(s@[i as int] != x);
                }
            }
            return Some(i);
        }
        i += 1;
    }
    None
}

/// Positions of a straight edge in an element's node list.
pub fn linear_edge_positions(element_node_ids: &[usize], edge_node_ids: [usize; 2]) -> (r: Option<[usize; 2]>)
    ensures
        r == linear_edge(element_node_ids@, edge_node_ids),
{
    let first_position = match position(element_node_ids, edge_node_ids[0]) {
        Some(p) => p,
        None => {
            return None;
        },
    };
    let second_position = match position(element_node_ids, edge_node_ids[1]) {
        Some(p) => p,
        None => {
            return None;
        },
    };
    let node_count = element_node_ids.len();
    let is_edge = (first_position + 1) % node_count == second_position || (second_position + 1) % node_count
        == first_position;
    if is_edge {
        Some([first_position, second_position])
    } else {
        None
    }
}

/// Tries the corner pairs from `start` on.
fn quadratic_edge_positions(
    element_node_ids: &[usize],
    edge_node_ids: [usize; 2],
    corners: &[(usize, usize, usize)],
) -> (r: Option<[usize; 3]>)
    requires
        forall|k: int|
            0 <= k < corners@.len() ==> (#[trigger] corners@[k]).0 < element_node_ids@.len()
                && corners@[k].1 < element_node_ids@.len(),
    ensures
        r == quadratic_edge(element_node_ids@, edge_node_ids, corners@),
{
    let mut k: usize = 0;
    assert(corners@.skip(0) =~= corners@);
    while k < corners.len()
        invariant
            k <= corners@.len(),
            forall|j: int|
                0 <= j < corners@.len() ==> (#[trigger] corners@[j]).0 < element_node_ids@.len()
                    && corners@[j].1 < element_node_ids@.len(),
            quadratic_edge(element_node_ids@, edge_node_ids, corners@) == quadratic_edge(
                element_node_ids@,
                edge_node_ids,
                corners@.skip(k as int),
            ),
        decreases corners@.len() - k,
    {
        let (a, b, mid) = corners[k];
        let ghost rest = corners@.skip(k as int);
        assert(rest[0] == corners@[k as int]);
        assert(rest.drop_first() =~= corners@.skip(k + 1));
        if edge_node_ids[0] == element_node_ids[a] && edge_node_ids[1] == element_node_ids[b] {
            return Some([a, mid, b]);
        }
        if edge_node_ids[0] == element_node_ids[b] && edge_node_ids[1] == element_node_ids[a] {
            return Some([b, mid, a]);
        }
        k += 1;
    }
    None
}

/// Positions of an edge of a six-node triangle: corner, mid-side node, corner.
pub fn triangle_t6_edge_positions(element_node_ids: &[usize], edge_node_ids: [usize; 2]) -> (r: Option<
    [usize; 3],
>)
    requires
        element_node_ids@.len() >= 3,
    ensures
        r == quadratic_edge(element_node_ids@, edge_node_ids, t6_edges()),
{
    let corners: [(usize, usize, usize); 3] = [(0, 1, 3), (1, 2, 4), (2, 0, 5)];
    assert(corners@ =~= t6_edges());
    quadratic_edge_positions(element_node_ids, edge_node_ids, &corners)
}

/// Positions of an edge of an eight-node quadrilateral: corner, mid-side node, corner.
pub fn quad_q8_edge_positions(element_node_ids: &[usize], edge_node_ids: [usize; 2]) -> (r: Option<[usize; 3]>)
    requires
        element_node_ids@.len() >= 4,
    ensures
        r == quadratic_edge(element_node_ids@, edge_node_ids, q8_edges()),
{
    let corners: [(usize, usize, usize); 4] = [(0, 1, 4), (1, 2, 5), (2, 3, 6), (3, 0, 7)];
    assert(corners@ =~= q8_edges());
    quadratic_edge_positions(element_node_ids, edge_node_ids, &corners)
}

/// Positions of the nodes of an element edge named by its two end nodes, or `None`
/// when the two nodes do not bound an edge of the element.
pub fn element_edge_positions(element: &Element2D, edge_node_ids: [usize; 2]) -> (r: Option<EdgeNodePositions>)
    ensures
        r == edge_positions(*element, edge_node_ids),
{
    proof {
        element.lemma_node_count();
    }
    match element {
        Element2D::TriangleT6(_) => match triangle_t6_edge_positions(element.node_ids(), edge_node_ids) {
            Some(p) => Some(EdgeNodePositions::Quadratic(p)),
            None => None,
        },
        Element2D::QuadQ8(_) => match quad_q8_edge_positions(element.node_ids(), edge_node_ids) {
            Some(p) => Some(EdgeNodePositions::Quadratic(p)),
            None => None,
        },
        _ => match linear_edge_positions(element.node_ids(), edge_node_ids) {
            Some(p) => Some(EdgeNodePositions::Linear(p)),
            None => None,
        },
    }
}

/// On an eight-node quadrilateral a loaded edge runs from one corner to the next
/// around the element, through the mid-side node between them: the edge between
/// corners k and k + 1 (mod 4) has its mid-side node at position 4 + k, in whichever
/// direction the edge is given. Every such pair of neighbouring corners is found.
pub proof fn lemma_q8_edge_positions(ids: Seq<usize>, edge: [usize; 2])
    requires
        ids.len() >= 4,
    ensures
        quadratic_edge(ids, edge, q8_edges()) matches Some(p) ==> {
            &&& p[0] < 4 && p[2] < 4
            &&& edge[0] == ids[p[0] as int] && edge[1] == ids[p[2] as int]
            &&& ((p[0] + 1) % 4 == p[2] && p[1] == p[0] + 4) || ((p[2] + 1) % 4 == p[0] && p[1] == p[2] + 4)
        },
        all_distinct(ids) ==> forall|k: int|
            0 <= k < 4 && edge[0] == #[trigger] ids[k] && edge[1] == ids[(k + 1) % 4] ==> (quadratic_edge(ids, edge, q8_edges())
                matches Some(p) && p[0] == k && p[1] == k + 4 && p[2] == (k + 1) % 4),
        all_distinct(ids) ==> forall|k: int|
            0 <= k < 4 && edge[0] == ids[(k + 1) % 4] && edge[1] == #[trigger] ids[k] ==> (quadratic_edge(ids, edge, q8_edges())
                matches Some(p) && p[0] == (k + 1) % 4 && p[1] == k + 4 && p[2] == k),
{
    reveal_with_fuel(quadratic_edge, 5);
    let c = q8_edges();
    assert(c.drop_first() =~= seq![(1usize, 2usize, 5usize), (2usize, 3usize, 6usize), (3usize, 0usize, 7usize)]);
    assert(c.drop_first().drop_first() =~= seq![(2usize, 3usize, 6usize), (3usize, 0usize, 7usize)]);
    assert(c.drop_first().drop_first().drop_first() =~= seq![(3usize, 0usize, 7usize)]);
    assert(c.drop_first().drop_first().drop_first().drop_first() =~= Seq::<(usize, usize, usize)>::empty());
    if all_distinct(ids) {
        assert(ids[0] != ids[1] && ids[0] != ids[2] && ids[0] != ids[3]);
        assert(ids[1] != ids[2] && ids[1] != ids[3] && ids[2] != ids[3]);
    }
}

/// On a six-node triangle a loaded edge runs from one corner to the next around the
/// element, through the mid-side node between them: the edge between corners k and
/// k + 1 (mod 3) has its mid-side node at position 3 + k, in whichever direction the
/// edge is given. Every such pair of neighbouring corners is found.
pub proof fn lemma_t6_edge_positions(ids: Seq<usize>, edge: [usize; 2])
    requires
        ids.len() >= 3,
    ensures
        quadratic_edge(ids, edge, t6_edges()) matches Some(p) ==> {
            &&& p[0] < 3 && p[2] < 3
            &&& edge[0] == ids[p[0] as int] && edge[1] == ids[p[2] as int]
            &&& ((p[0] + 1) % 3 == p[2] && p[1] == p[0] + 3) || ((p[2] + 1) % 3 == p[0] && p[1] == p[2] + 3)
        },
        all_distinct(ids) ==> forall|k: int|
            0 <= k < 3 && edge[0] == #[trigger] ids[k] && edge[1] == ids[(k + 1) % 3] ==> (quadratic_edge(ids, edge, t6_edges())
                matches Some(p) && p[0] == k && p[1] == k + 3 && p[2] == (k + 1) % 3),
        all_distinct(ids) ==> forall|k: int|
            0 <= k < 3 && edge[0] == ids[(k + 1) % 3] && edge[1] == #[trigger] ids[k] ==> (quadratic_edge(ids, edge, t6_edges())
                matches Some(p) && p[0] == (k + 1) % 3 && p[1] == k + 3 && p[2] == k),
{
    reveal_with_fuel(quadratic_edge, 4);
    let c = t6_edges();
    assert(c.drop_first() =~= seq![(1usize, 2usize, 4usize), (2usize, 0usize, 5usize)]);
    assert(c.drop_first().drop_first() =~= seq![(2usize, 0usize, 5usize)]);
    assert(c.drop_first().drop_first().drop_first() =~= Seq::<(usize, usize, usize)>::empty());
    if all_distinct(ids) {
        assert(ids[0] != ids[1] && ids[0] != ids[2] && ids[1] != ids[2]);
    }
}

} // verus!
