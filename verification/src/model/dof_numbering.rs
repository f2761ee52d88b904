//! Numbering of the degrees of freedom of a two-dimensional model.
use vstd::prelude::*;

use crate::elements::element_2d::Element2D;
use crate::error::FemError;
use crate::model::dof::Dof2D;
use crate::model::topology::{refs_known, ModelTopology2D};

verus! {

/// Some element of `elements` connects `node_id` and carries `dof` at its nodes.
pub open spec fn dof_required(elements: Seq<Element2D>, node_id: usize, dof: Dof2D) -> bool {
    exists|i: int|
        0 <= i < elements.len() && (#[trigger] elements[i]).spec_node_ids().contains(node_id)
            && elements[i].spec_dofs_per_node().contains(dof)
}

/// `(node_id, dof)` if the DOF is required, else nothing.
pub open spec fn dof_if_required(elements: Seq<Element2D>, node_id: usize, dof: Dof2D) -> Seq<
    (usize, Dof2D),
> {
    if dof_required(elements, node_id, dof) {
        seq![(node_id, dof)]
    } else {
        seq![]
    }
}

/// The numbered DOFs of one node, in the order `Ux`, `Uy`, `Rz`.
pub open spec fn node_dofs(elements: Seq<Element2D>, node_id: usize) -> Seq<(usize, Dof2D)> {
    dof_if_required(elements, node_id, Dof2D::Ux) + dof_if_required(elements, node_id, Dof2D::Uy)
        + dof_if_required(elements, node_id, Dof2D::Rz)
}

/// All numbered DOFs: nodes in order, and per node `Ux`, `Uy`, `Rz`, keeping only the
/// DOFs that some element carries at that node. The global index of a DOF is its
/// position in this sequence.
pub open spec fn numbered_dofs(node_ids: Seq<usize>, elements: Seq<Element2D>) -> Seq<(usize, Dof2D)>
    decreases node_ids.len(),
{
    if node_ids.len() == 0 {
        seq![]
    } else {
        numbered_dofs(node_ids.drop_last(), elements) + node_dofs(elements, node_ids.last())
    }
}

/// The element's DOFs in local order: node by node, and per node the element's DOFs.
pub open spec fn dof_keys(nodes: Seq<usize>, dofs: Seq<Dof2D>) -> Seq<(usize, Dof2D)>
    decreases nodes.len(),
{
    if nodes.len() == 0 {
        seq![]
    } else {
        dof_keys(nodes.drop_last(), dofs) + dofs.map_values(|d: Dof2D| (nodes.last(), d))
    }
}

/// The local DOF order of an element.
pub open spec fn element_dof_keys(element: Element2D) -> Seq<(usize, Dof2D)> {
    dof_keys(element.spec_node_ids(), element.spec_dofs_per_node())
}

/// Every key of `keys` is numbered.
pub open spec fn all_numbered(keys: Seq<(usize, Dof2D)>, numbered: Seq<(usize, Dof2D)>) -> bool {
    forall|k: int| 0 <= k < keys.len() ==> numbered.contains(#[trigger] keys[k])
}

/// The position of the first key of `keys` that is not numbered.
pub open spec fn first_unnumbered(keys: Seq<(usize, Dof2D)>, numbered: Seq<(usize, Dof2D)>) -> int {
    choose|k: int|
        0 <= k < keys.len() && !numbered.contains(keys[k]) && forall|j: int|
            0 <= j < k ==> numbered.contains(#[trigger] keys[j])
}

/// The error for the first unnumbered key.
pub open spec fn unknown_dof_error(keys: Seq<(usize, Dof2D)>, numbered: Seq<(usize, Dof2D)>) -> FemError {
    let k = first_unnumbered(keys, numbered);
    FemError::UnknownDof { node_id: keys[k].0, dof: keys[k].1 }
}

/// The entries of `keys` are pairwise distinct.
pub open spec fn distinct_dofs(keys: Seq<(usize, Dof2D)>) -> bool {
    forall|i: int, j: int| 0 <= i < keys.len() && 0 <= j < keys.len() && i != j ==> keys[i] != keys[j]
}

/// The position of `key` in `dofs`; for a numbering, the global index of the DOF.
pub open spec fn dof_index(dofs: Seq<(usize, Dof2D)>, key: (usize, Dof2D)) -> int {
    choose|i: int| 0 <= i < dofs.len() && dofs[i] == key
}

/// `key` is a DOF of the model: its node is one of `node_ids`, and some element
/// connected to that node carries it.
pub open spec fn model_dof(node_ids: Seq<usize>, elements: Seq<Element2D>, key: (usize, Dof2D)) -> bool {
    node_ids.contains(key.0) && dof_required(elements, key.0, key.1)
}

/// The rank of a DOF in the per-node order `Ux`, `Uy`, `Rz`.
pub open spec fn dof_rank(dof: Dof2D) -> int {
    match dof {
        Dof2D::Ux => 0,
        Dof2D::Uy => 1,
        Dof2D::Rz => 2,
    }
}

/// `a` is numbered before `b`: its node comes earlier in `node_ids`, or both belong to
/// the same node and `a`'s DOF comes first in the order `Ux`, `Uy`, `Rz`.
pub open spec fn numbered_before(node_ids: Seq<usize>, a: (usize, Dof2D), b: (usize, Dof2D)) -> bool {
    ||| exists|p: int, q: int| 0 <= p < q < node_ids.len() && node_ids[p] == a.0 && node_ids[q] == b.0
    ||| (a.0 == b.0 && dof_rank(a.1) < dof_rank(b.1))
}

/// Numbering of the degrees of freedom of a 2D model: the DOF at position `i` of the
/// numbering has global index `i`.
pub struct DofNumbering2D {
    dofs: Vec<(usize, Dof2D)>,
}

impl DofNumbering2D {
    /// The numbered DOFs in index order.
    pub closed spec fn spec_dofs(&self) -> Seq<(usize, Dof2D)> {
        self.dofs@
    }

    /// No DOF is numbered twice.
    pub open spec fn well_formed(&self) -> bool {
        distinct_dofs(self.spec_dofs())
    }

    /// Creates the DOF numbering of a model. Nodes are numbered in insertion order
    /// and, per node, `Ux`, `Uy`, `Rz` in that order; a DOF is numbered when some
    /// element connected to the node carries it. Fails when a displacement
    /// constraint targets a DOF that is not numbered.
    pub fn from_model(model: &ModelTopology2D) -> (r: Result<Self, FemError>)
        requires
            model.well_formed(),
        ensures
            r matches Ok(n) ==> n.well_formed() && n.spec_dofs() == numbered_dofs(
                model.spec_node_ids(),
                model.spec_elements(),
            ),
            r is Ok <==> all_numbered(
                model.spec_constraints(),
                numbered_dofs(model.spec_node_ids(), model.spec_elements()),
            ),
            r is Err ==> r == Err::<Self, FemError>(
                unknown_dof_error(
                    model.spec_constraints(),
                    numbered_dofs(model.spec_node_ids(), model.spec_elements()),
                ),
            ),
    {
        let node_ids = model.node_ids();
        let elements = model.elements();
        let ghost ns = node_ids@;
        let ghost es = elements@;
        let mut dofs: Vec<(usize, Dof2D)> = Vec::new();
        let mut i: usize = 0;
        while i < node_ids.len()
            invariant
                i <= ns.len(),
                ns == node_ids@,
                es == elements@,
                ns == model.spec_node_ids(),
                dofs@ == numbered_dofs(ns.take(i as int), es),
            decreases ns.len() - i,
        {
            let node_id = node_ids[i];
            assert(ns.take(i + 1).drop_last() =~= ns.take(i as int));
            assert(ns.take(i + 1).last() == node_id);
            push_node_dofs(&mut dofs, elements, node_id);
            i += 1;
        }
        assert(ns.take(ns.len() as int) =~= ns);
        proof {
            lemma_numbered_dofs_distinct(ns, es);
        }
        let numbering = DofNumbering2D { dofs };
        numbering.indices_of(model.constraints())?;
        Ok(numbering)
    }

    /// Returns the global index of the DOF `dof` of node `node_id`.
    pub fn index(&self, node_id: usize, dof: Dof2D) -> (r: Result<usize, FemError>)
        ensures
            r matches Ok(i) ==> i < self.spec_dofs().len() && self.spec_dofs()[i as int] == (node_id, dof),
            r is Err <==> !self.spec_dofs().contains((node_id, dof)),
            r is Err ==> r == Err::<usize, FemError>(FemError::UnknownDof { node_id, dof }),
            self.well_formed() && self.spec_dofs().contains((node_id, dof)) ==> r == Ok::<usize, FemError>(
                dof_index(self.spec_dofs(), (node_id, dof)) as usize,
            ),
    {
        let mut i: usize = 0;
        while i < self.dofs.len()
            invariant
                i <= self.dofs@.len(),
                forall|j: int| 0 <= j < i ==> self.dofs@[j] != (node_id, dof),
            decreases self.dofs@.len() - i,
        {
            let (n, d) = self.dofs[i];
            if n == node_id && d == dof {
                proof {
                    if self.well_formed() {
                        let c = dof_index(self.spec_dofs(), (node_id, dof));
                        assert(self.spec_dofs()[i as int] == (node_id, dof));
                        assert(0 <= c < self.spec_dofs().len() && self.spec_dofs()[c] == (node_id, dof));
                        assert(c == i);
                    }
                }
                return Ok(i);
            }
            i += 1;
        }
        Err(FemError::UnknownDof { node_id, dof })
    }

    /// Returns the global indices of `keys`, in order; fails on the first key that is not numbered.
    pub fn indices_of(&self, keys: &Vec<(usize, Dof2D)>) -> (r: Result<Vec<usize>, FemError>)
        ensures
            r is Ok <==> all_numbered(keys@, self.spec_dofs()),
            r matches Ok(v) ==> v@.len() == keys@.len() && forall|k: int|
                0 <= k < keys@.len() ==> #[trigger] v@[k] < self.spec_dofs().len()
                    && self.spec_dofs()[v@[k] as int] == keys@[k],
            r is Err ==> r == Err::<Vec<usize>, FemError>(unknown_dof_error(keys@, self.spec_dofs())),
    {
        let mut indices: Vec<usize> = Vec::new();
        let mut k: usize = 0;
        while k < keys.len()
            invariant
                k <= keys@.len(),
                indices@.len() == k,
                forall|j: int|
                    0 <= j < k ==> #[trigger] indices@[j] < self.spec_dofs().len()
                        && self.spec_dofs()[indices@[j] as int] == keys@[j],
            decreases keys@.len() - k,
        {
            let (node_id, dof) = keys[k];
            match self.index(node_id, dof) {
                Ok(i) => {
                    indices.push(i);
                },
                Err(e) => {
                    proof {
                        assert forall|j: int| 0 <= j < k implies self.spec_dofs().contains(
                            #[trigger] keys@[j],
                        ) by {
                            assert(self.spec_dofs()[indices@[j] as int] == keys@[j]);
                        }
                        lemma_first_unnumbered(keys@, self.spec_dofs(), k as int);
                    }
                    return Err(e);
                },
            }
            k += 1;
        }
        proof {
            assert forall|j: int| 0 <= j < keys@.len() implies self.spec_dofs().contains(
                #[trigger] keys@[j],
            ) by {
                assert(self.spec_dofs()[indices@[j] as int] == keys@[j]);
            }
        }
        Ok(indices)
    }

    /// Returns the global indices of an element's DOFs in the element's local order.
    pub fn element_dof_indices(&self, element: &Element2D) -> (r: Result<Vec<usize>, FemError>)
        ensures
            r is Ok <==> all_numbered(element_dof_keys(*element), self.spec_dofs()),
            r matches Ok(v) ==> v@.len() == element_dof_keys(*element).len() && forall|k: int|
                0 <= k < v@.len() ==> #[trigger] v@[k] < self.spec_dofs().len()
                    && self.spec_dofs()[v@[k] as int] == element_dof_keys(*element)[k],
            r is Err ==> r == Err::<Vec<usize>, FemError>(
                unknown_dof_error(element_dof_keys(*element), self.spec_dofs()),
            ),
            r matches Ok(v) ==> v@.len() == element.spec_node_count() * element.spec_dofs_per_node().len(),
            self.well_formed() ==> (r matches Ok(v) ==> forall|a: int, b: int|
                0 <= a < element.spec_node_count() && 0 <= b < element.spec_dofs_per_node().len() ==> v@[a
                    * element.spec_dofs_per_node().len() + b] as int == dof_index(
                    self.spec_dofs(),
                    (element.spec_node_ids()[a], element.spec_dofs_per_node()[b]),
                )),
    {
        let keys = element_keys(element);
        let r = self.indices_of(&keys);
        proof {
            element.lemma_node_count();
            let nodes = element.spec_node_ids();
            let dofs = element.spec_dofs_per_node();
            lemma_dof_keys_layout(nodes, dofs);
            if self.well_formed() {
                match &r {
                    Ok(v) => {
                        assert forall|a: int, b: int| 0 <= a < element.spec_node_count() && 0 <= b < dofs.len()
                            implies v@[a * dofs.len() + b] as int == dof_index(self.spec_dofs(), (nodes[a], dofs[b])) by {
                            let k = a * dofs.len() + b;
                            assert(0 <= k < v@.len()) by (nonlinear_arith)
                                requires
                                    0 <= a < nodes.len(),
                                    0 <= b < dofs.len(),
                                    k == a * dofs.len() + b,
                                    v@.len() == nodes.len() * dofs.len(),
                            ;
                            let key = (nodes[a], dofs[b]);
                            assert(self.spec_dofs()[v@[k] as int] == key);
                            let c = dof_index(self.spec_dofs(), key);
                            assert(self.spec_dofs().contains(key));
                            assert(0 <= c < self.spec_dofs().len() && self.spec_dofs()[c] == key);
                        }
                    },
                    Err(_) => {},
                }
            }
        }
        r
    }

    /// Returns the global indices of the model's constrained DOFs, in constraint order.
    pub fn constraint_dof_indices(&self, model: &ModelTopology2D) -> (r: Result<Vec<usize>, FemError>)
        ensures
            r is Ok <==> all_numbered(model.spec_constraints(), self.spec_dofs()),
            r matches Ok(v) ==> v@.len() == model.spec_constraints().len() && forall|k: int|
                0 <= k < v@.len() ==> #[trigger] v@[k] < self.spec_dofs().len()
                    && self.spec_dofs()[v@[k] as int] == model.spec_constraints()[k],
            r is Err ==> r == Err::<Vec<usize>, FemError>(
                unknown_dof_error(model.spec_constraints(), self.spec_dofs()),
            ),
    {
        self.indices_of(model.constraints())
    }

    /// Returns the total count of numbered DOFs.
    pub fn count(&self) -> (r: usize)
        ensures
            r == self.spec_dofs().len(),
    {
        self.dofs.len()
    }
}

/// Appends the numbered DOFs of one node.
fn push_node_dofs(dofs: &mut Vec<(usize, Dof2D)>, elements: &Vec<Element2D>, node_id: usize)
    ensures
        final(dofs)@ == old(dofs)@ + node_dofs(elements@, node_id),
{
    if is_required(elements, node_id, Dof2D::Ux) {
        dofs.push((node_id, Dof2D::Ux));
    }
    if is_required(elements, node_id, Dof2D::Uy) {
        dofs.push((node_id, Dof2D::Uy));
    }
    if is_required(elements, node_id, Dof2D::Rz) {
        dofs.push((node_id, Dof2D::Rz));
    }
    assert(dofs@ =~= old(dofs)@ + node_dofs(elements@, node_id));
}

/// Lists an element's DOFs in local order.
pub fn element_keys(element: &Element2D) -> (keys: Vec<(usize, Dof2D)>)
    ensures
        keys@ == element_dof_keys(*element),
{
    let nodes = element.node_ids();
    let dofs = element.dofs_per_node();
    let mut keys: Vec<(usize, Dof2D)> = Vec::new();
    let mut a: usize = 0;
    while a < nodes.len()
        invariant
            a <= nodes@.len(),
            nodes@ == element.spec_node_ids(),
            dofs@ == element.spec_dofs_per_node(),
            keys@ == dof_keys(nodes@.take(a as int), dofs@),
        decreases nodes@.len() - a,
    {
        let node_id = nodes[a];
        let ghost before = keys@;
        let mut b: usize = 0;
        while b < dofs.len()
            invariant
                b <= dofs@.len(),
                a < nodes@.len(),
                node_id == nodes@[a as int],
                keys@ == before + dofs@.take(b as int).map_values(|d: Dof2D| (node_id, d)),
            decreases dofs@.len() - b,
        {
            keys.push((node_id, dofs[b]));
            assert(dofs@.take(b + 1).map_values(|d: Dof2D| (node_id, d)) =~= dofs@.take(
                b as int,
            ).map_values(|d: Dof2D| (node_id, d)).push((node_id, dofs@[b as int])));
            b += 1;
        }
        assert(dofs@.take(dofs@.len() as int) =~= dofs@);
        assert(nodes@.take(a + 1).drop_last() =~= nodes@.take(a as int));
        a += 1;
    }
    assert(nodes@.take(nodes@.len() as int) =~= nodes@);
    keys
}

/// Checks whether some element connects `node_id` and carries `dof`.
pub fn is_required(elements: &Vec<Element2D>, node_id: usize, dof: Dof2D) -> (r: bool)
    ensures
        r == dof_required(elements@, node_id, dof),
{
    let mut i: usize = 0;
    while i < elements.len()
        invariant
            i <= elements@.len(),
            forall|j: int|
                0 <= j < i ==> !((#[trigger] elements@[j]).spec_node_ids().contains(node_id)
                    && elements@[j].spec_dofs_per_node().contains(dof)),
        decreases elements@.len() - i,
    {
        let element = &elements[i];
        if slice_contains_usize(element.node_ids(), node_id) && slice_contains_dof(
            element.dofs_per_node(),
            dof,
        ) {
            return true;
        }
        i += 1;
    }
    false
}

fn slice_contains_usize(s: &[usize], x: usize) -> (r: bool)
    ensures
        r == s@.contains(x),
{
    let mut i: usize = 0;
    while i < s.len()
        invariant
            i <= s@.len(),
            forall|j: int| 0 <= j < i ==> s@[j] != x,
        decreases s@.len() - i,
    {
        if s[i] == x {
            return true;
        }
        i += 1;
    }
    false
}

fn slice_contains_dof(s: &[Dof2D], x: Dof2D) -> (r: bool)
    ensures
        r == s@.contains(x),
{
    let mut i: usize = 0;
    while i < s.len()
        invariant
            i <= s@.len(),
            forall|j: int| 0 <= j < i ==> s@[j] != x,
        decreases s@.len() - i,
    {
        if s[i] == x {
            return true;
        }
        i += 1;
    }
    false
}

proof fn lemma_first_unnumbered(keys: Seq<(usize, Dof2D)>, numbered: Seq<(usize, Dof2D)>, k: int)
    requires
        0 <= k < keys.len(),
        !numbered.contains(keys[k]),
        forall|j: int| 0 <= j < k ==> numbered.contains(#[trigger] keys[j]),
    ensures
        first_unnumbered(keys, numbered) == k,
        !all_numbered(keys, numbered),
{
    let c = first_unnumbered(keys, numbered);
    if c < k {
        assert(numbered.contains(keys[c]));
    } else if c > k {
        assert(numbered.contains(keys[k]));
    }
}

/// The DOFs of one node all belong to that node and are pairwise distinct.
proof fn lemma_node_dofs(elements: Seq<Element2D>, node_id: usize)
    ensures
        distinct_dofs(node_dofs(elements, node_id)),
        forall|k: int|
            0 <= k < node_dofs(elements, node_id).len() ==> (#[trigger] node_dofs(
                elements,
                node_id,
            )[k]).0 == node_id,
{
}

/// Every numbered DOF belongs to one of the numbered nodes.
pub proof fn lemma_numbered_dofs_nodes(node_ids: Seq<usize>, elements: Seq<Element2D>)
    ensures
        forall|k: int|
            0 <= k < numbered_dofs(node_ids, elements).len() ==> node_ids.contains(
                (#[trigger] numbered_dofs(node_ids, elements)[k]).0,
            ),
    decreases node_ids.len(),
{
    if node_ids.len() > 0 {
        let prev = node_ids.drop_last();
        lemma_numbered_dofs_nodes(prev, elements);
        lemma_node_dofs(elements, node_ids.last());
        let all = numbered_dofs(node_ids, elements);
        let head = numbered_dofs(prev, elements);
        assert forall|k: int| 0 <= k < all.len() implies node_ids.contains((#[trigger] all[k]).0) by {
            if k < head.len() {
                assert(all[k] == head[k]);
                let j = choose|j: int| 0 <= j < prev.len() && prev[j] == head[k].0;
                assert(node_ids[j] == prev[j]);
            } else {
                assert(all[k] == node_dofs(elements, node_ids.last())[k - head.len()]);
                assert(node_ids[node_ids.len() - 1] == node_ids.last());
            }
        }
    }
}

/// With distinct node IDs, no DOF is numbered twice.
pub proof fn lemma_numbered_dofs_distinct(node_ids: Seq<usize>, elements: Seq<Element2D>)
    requires
        forall|i: int, j: int|
            0 <= i < node_ids.len() && 0 <= j < node_ids.len() && i != j ==> node_ids[i] != node_ids[j],
    ensures
        distinct_dofs(numbered_dofs(node_ids, elements)),
    decreases node_ids.len(),
{
    if node_ids.len() > 0 {
        let prev = node_ids.drop_last();
        let last = node_ids.last();
        lemma_numbered_dofs_distinct(prev, elements);
        lemma_numbered_dofs_nodes(prev, elements);
        lemma_node_dofs(elements, last);
        let all = numbered_dofs(node_ids, elements);
        let head = numbered_dofs(prev, elements);
        let tail = node_dofs(elements, last);
        assert(!prev.contains(last)) by {
            if prev.contains(last) {
                let j = choose|j: int| 0 <= j < prev.len() && prev[j] == last;
                assert(node_ids[j] == node_ids[node_ids.len() - 1]);
            }
        }
        assert forall|i: int, j: int| 0 <= i < all.len() && 0 <= j < all.len() && i != j implies all[i]
            != all[j] by {
            if i < head.len() && j >= head.len() {
                assert(all[i] == head[i]);
                assert(prev.contains(head[i].0));
                assert(all[j] == tail[j - head.len()]);
            } else if j < head.len() && i >= head.len() {
                assert(all[j] == head[j]);
                assert(prev.contains(head[j].0));
                assert(all[i] == tail[i - head.len()]);
            } else if i < head.len() && j < head.len() {
                assert(all[i] == head[i] && all[j] == head[j]);
            } else {
                assert(all[i] == tail[i - head.len()] && all[j] == tail[j - head.len()]);
            }
        }
    }
}

/// Keys of an element's local DOF list pair one of its nodes with one of its DOFs.
proof fn lemma_dof_keys_members(nodes: Seq<usize>, dofs: Seq<Dof2D>)
    ensures
        forall|k: int|
            0 <= k < dof_keys(nodes, dofs).len() ==> nodes.contains((#[trigger] dof_keys(nodes, dofs)[k]).0)
                && dofs.contains(dof_keys(nodes, dofs)[k].1),
    decreases nodes.len(),
{
    if nodes.len() > 0 {
        let prev = nodes.drop_last();
        lemma_dof_keys_members(prev, dofs);
        let all = dof_keys(nodes, dofs);
        let head = dof_keys(prev, dofs);
        assert forall|k: int| 0 <= k < all.len() implies nodes.contains((#[trigger] all[k]).0)
            && dofs.contains(all[k].1) by {
            if k < head.len() {
                assert(all[k] == head[k]);
                let j = choose|j: int| 0 <= j < prev.len() && prev[j] == head[k].0;
                assert(nodes[j] == prev[j]);
            } else {
                assert(all[k] == (nodes.last(), dofs[k - head.len()]));
                assert(nodes[nodes.len() - 1] == nodes.last());
            }
        }
    }
}

/// A DOF is numbered exactly when its node is a model node and some element connected
/// to that node carries it.
pub proof fn lemma_numbered_dofs_characterization(
    node_ids: Seq<usize>,
    elements: Seq<Element2D>,
    node_id: usize,
    dof: Dof2D,
)
    ensures
        numbered_dofs(node_ids, elements).contains((node_id, dof)) <==> (node_ids.contains(node_id)
            && dof_required(elements, node_id, dof)),
    decreases node_ids.len(),
{
    if node_ids.len() > 0 {
        let prev = node_ids.drop_last();
        let last = node_ids.last();
        lemma_numbered_dofs_characterization(prev, elements, node_id, dof);
        let all = numbered_dofs(node_ids, elements);
        let head = numbered_dofs(prev, elements);
        let tail = node_dofs(elements, last);
        assert(all == head + tail);
        if all.contains((node_id, dof)) {
            let k = choose|k: int| 0 <= k < all.len() && all[k] == (node_id, dof);
            if k < head.len() {
                assert(head[k] == all[k]);
                let j = choose|j: int| 0 <= j < prev.len() && prev[j] == node_id;
                assert(node_ids[j] == prev[j]);
            } else {
                assert(tail[k - head.len()] == all[k]);
                assert(node_ids[node_ids.len() - 1] == last);
            }
        }
        if node_ids.contains(node_id) && dof_required(elements, node_id, dof) {
            if prev.contains(node_id) {
                let k = choose|k: int| 0 <= k < head.len() && head[k] == (node_id, dof);
                assert(all[k] == head[k]);
            } else {
                let j = choose|j: int| 0 <= j < node_ids.len() && node_ids[j] == node_id;
                if j < prev.len() {
                    assert(prev[j] == node_ids[j]);
                }
                assert(node_id == last);
                let a = dof_if_required(elements, node_id, Dof2D::Ux);
                let b = dof_if_required(elements, node_id, Dof2D::Uy);
                match dof {
                    Dof2D::Ux => assert(tail[0] == (node_id, dof)),
                    Dof2D::Uy => assert(tail[a.len() as int] == (node_id, dof)),
                    Dof2D::Rz => assert(tail[(a.len() + b.len()) as int] == (node_id, dof)),
                }
                assert(tail.contains((node_id, dof)));
                let k = choose|k: int| 0 <= k < tail.len() && tail[k] == (node_id, dof);
                assert(all[head.len() + k] == tail[k]);
            }
        }
    }
}

/// Every DOF of every element of a well-formed model is numbered, so the element's
/// global DOF indices can always be looked up.
pub proof fn lemma_model_element_dofs_numbered(model: ModelTopology2D, i: int)
    requires
        model.well_formed(),
        0 <= i < model.spec_elements().len(),
    ensures
        all_numbered(
            element_dof_keys(model.spec_elements()[i]),
            numbered_dofs(model.spec_node_ids(), model.spec_elements()),
        ),
{
    let element = model.spec_elements()[i];
    let keys = element_dof_keys(element);
    lemma_dof_keys_members(element.spec_node_ids(), element.spec_dofs_per_node());
    assert forall|k: int| 0 <= k < keys.len() implies numbered_dofs(
        model.spec_node_ids(),
        model.spec_elements(),
    ).contains(#[trigger] keys[k]) by {
        let (n, d) = keys[k];
        assert(element.spec_node_ids().contains(n));
        let m = choose|m: int| 0 <= m < element.spec_node_ids().len() && element.spec_node_ids()[m] == n;
        assert(model.spec_node_ids().contains(element.spec_node_ids()[m]));
        assert(dof_required(model.spec_elements(), n, d));
        lemma_numbered_dofs_characterization(model.spec_node_ids(), model.spec_elements(), n, d);
    }
}

/// Each numbered DOF has exactly one global index: equal DOFs sit at equal positions.
pub proof fn lemma_index_unique(numbering: DofNumbering2D, i: int, j: int)
    requires
        numbering.well_formed(),
        0 <= i < numbering.spec_dofs().len(),
        0 <= j < numbering.spec_dofs().len(),
        numbering.spec_dofs()[i] == numbering.spec_dofs()[j],
    ensures
        i == j,
{
}

/// An element's local DOF list runs node by node and, per node, through the DOFs in
/// order: entry `a * dofs.len() + b` pairs node `a` with DOF `b`.
pub proof fn lemma_dof_keys_layout(nodes: Seq<usize>, dofs: Seq<Dof2D>)
    ensures
        dof_keys(nodes, dofs).len() == nodes.len() * dofs.len(),
        forall|a: int, b: int|
            0 <= a < nodes.len() && 0 <= b < dofs.len() ==> #[trigger] dof_keys(nodes, dofs)[a * dofs.len() + b]
                == (nodes[a], dofs[b]),
    decreases nodes.len(),
{
    if nodes.len() > 0 {
        let prev = nodes.drop_last();
        lemma_dof_keys_layout(prev, dofs);
        let d = dofs.len();
        let n = nodes.len();
        let head = dof_keys(prev, dofs);
        let all = dof_keys(nodes, dofs);
        assert(all.len() == n * d) by (nonlinear_arith)
            requires
                all.len() == head.len() + d,
                head.len() == (n - 1) * d,
        ;
        assert forall|a: int, b: int| 0 <= a < n && 0 <= b < d implies #[trigger] all[a * d + b] == (
            nodes[a],
            dofs[b],
        ) by {
            let k = a * d + b;
            if a < n - 1 {
                assert(k < (n - 1) * d) by (nonlinear_arith)
                    requires
                        0 <= a < n - 1,
                        0 <= b < d,
                        k == a * d + b,
                ;
                assert(0 <= k) by (nonlinear_arith)
                    requires
                        0 <= a,
                        0 <= b,
                        k == a * d + b,
                ;
                assert(all[k] == head[k]);
                assert(prev[a] == nodes[a]);
            } else {
                assert(k == (n - 1) * d + b);
                assert(all[k] == dofs.map_values(|x: Dof2D| (nodes.last(), x))[b]);
            }
        }
    }
}

/// The DOFs of one node come in the order `Ux`, `Uy`, `Rz`.
proof fn lemma_node_dofs_ordered(elements: Seq<Element2D>, node_id: usize)
    ensures
        forall|a: int, b: int|
            0 <= a < b < node_dofs(elements, node_id).len() ==> dof_rank(
                (#[trigger] node_dofs(elements, node_id)[a]).1,
            ) < dof_rank((#[trigger] node_dofs(elements, node_id)[b]).1),
{
    let x = dof_if_required(elements, node_id, Dof2D::Ux);
    let y = dof_if_required(elements, node_id, Dof2D::Uy);
    let z = dof_if_required(elements, node_id, Dof2D::Rz);
    let all = node_dofs(elements, node_id);
    assert(all == x + y + z);
    assert forall|a: int, b: int| 0 <= a < b < all.len() implies dof_rank((#[trigger] all[a]).1) < dof_rank(
        (#[trigger] all[b]).1,
    ) by {
        let xy = x + y;
        assert(all == xy + z);
        if b < x.len() {
        } else if b < xy.len() {
            assert(all[b] == xy[b]);
            assert(xy[b] == y[b - x.len()]);
            assert(all[a] == xy[a]);
            assert(a < x.len());
            assert(xy[a] == x[a]);
        } else {
            assert(all[b] == z[b - xy.len()]);
            assert(all[a] == xy[a]);
            if a < x.len() {
                assert(xy[a] == x[a]);
            } else {
                assert(xy[a] == y[a - x.len()]);
            }
        }
    }
}

/// Numbered DOFs come node by node in the order of `node_ids`, and per node in the
/// order `Ux`, `Uy`, `Rz`.
proof fn lemma_numbered_dofs_order(node_ids: Seq<usize>, elements: Seq<Element2D>)
    ensures
        forall|i: int, j: int|
            0 <= i < j < numbered_dofs(node_ids, elements).len() ==> numbered_before(
                node_ids,
                #[trigger] numbered_dofs(node_ids, elements)[i],
                #[trigger] numbered_dofs(node_ids, elements)[j],
            ),
    decreases node_ids.len(),
{
    if node_ids.len() > 0 {
        let prev = node_ids.drop_last();
        let last = node_ids.last();
        let n = node_ids.len() as int;
        lemma_numbered_dofs_order(prev, elements);
        lemma_numbered_dofs_nodes(prev, elements);
        lemma_node_dofs(elements, last);
        lemma_node_dofs_ordered(elements, last);
        let all = numbered_dofs(node_ids, elements);
        let head = numbered_dofs(prev, elements);
        let tail = node_dofs(elements, last);
        assert(all == head + tail);
        assert forall|i: int, j: int| 0 <= i < j < all.len() implies numbered_before(
            node_ids,
            #[trigger] all[i],
            #[trigger] all[j],
        ) by {
            if j < head.len() {
                assert(all[i] == head[i] && all[j] == head[j]);
                assert(numbered_before(prev, head[i], head[j]));
                if exists|p: int, q: int| 0 <= p < q < prev.len() && prev[p] == head[i].0 && prev[q] == head[j].0 {
                    let (p, q) = choose|p: int, q: int|
                        0 <= p < q < prev.len() && prev[p] == head[i].0 && prev[q] == head[j].0;
                    assert(node_ids[p] == prev[p] && node_ids[q] == prev[q]);
                }
            } else if i < head.len() {
                assert(all[i] == head[i]);
                assert(all[j] == tail[j - head.len()]);
                assert(prev.contains(head[i].0));
                let p = choose|p: int| 0 <= p < prev.len() && prev[p] == head[i].0;
                assert(node_ids[p] == prev[p]);
                assert(node_ids[n - 1] == last);
                assert(tail[j - head.len()].0 == last);
            } else {
                assert(all[i] == tail[i - head.len()] && all[j] == tail[j - head.len()]);
                assert(dof_rank(tail[i - head.len()].1) < dof_rank(tail[j - head.len()].1));
            }
        }
    }
}

/// The numbering of a well-formed model is a bijection between the model's DOFs and
/// the indices `0..count`: every index holds a DOF of the model, every DOF of the model
/// has an index, no DOF has two, and the indices follow the node order and, per node,
/// the order `Ux`, `Uy`, `Rz`.
pub proof fn lemma_numbering_bijection(model: ModelTopology2D)
    requires
        model.well_formed(),
    ensures
        ({
            let dofs = numbered_dofs(model.spec_node_ids(), model.spec_elements());
            &&& forall|i: int|
                0 <= i < dofs.len() ==> model_dof(model.spec_node_ids(), model.spec_elements(), #[trigger] dofs[i])
            &&& forall|key: (usize, Dof2D)|
                model_dof(model.spec_node_ids(), model.spec_elements(), key) ==> 0 <= #[trigger] dof_index(dofs, key)
                    < dofs.len() && dofs[dof_index(dofs, key)] == key
            &&& distinct_dofs(dofs)
            &&& forall|i: int, j: int|
                0 <= i < j < dofs.len() ==> numbered_before(model.spec_node_ids(), #[trigger] dofs[i], #[trigger] dofs[j])
        }),
{
    let node_ids = model.spec_node_ids();
    let elements = model.spec_elements();
    let dofs = numbered_dofs(node_ids, elements);
    lemma_numbered_dofs_distinct(node_ids, elements);
    lemma_numbered_dofs_order(node_ids, elements);
    assert forall|i: int| 0 <= i < dofs.len() implies model_dof(node_ids, elements, #[trigger] dofs[i]) by {
        assert(dofs.contains(dofs[i]));
        lemma_numbered_dofs_characterization(node_ids, elements, dofs[i].0, dofs[i].1);
    }
    assert forall|key: (usize, Dof2D)| model_dof(node_ids, elements, key) implies 0 <= #[trigger] dof_index(
        dofs,
        key,
    ) < dofs.len() && dofs[dof_index(dofs, key)] == key by {
        lemma_numbered_dofs_characterization(node_ids, elements, key.0, key.1);
        assert(dofs.contains(key));
    }
}

} // verus!
