use vstd::prelude::*;
use vstd::arithmetic::power::pow;
use crate::icosphere::{child_face, distinct_edges, edge_index, edge_set, face_joins, faces_in_range, geodesic};
use crate::icosphere::{has_edge, midpoint, same_edge, split_edges, split_faces, undirected, Edge, Face, INDEX};
use crate::icosphere::{lemma_edge_index_unique, lemma_geodesic_face_count, lemma_geodesic_vertex_growth};
use crate::icosphere::{lemma_midpoint_symmetric, lemma_one_vertex_per_edge, lemma_split_edges_cover};
use crate::icosphere::{lemma_split_edges_distinct, lemma_split_edges_in_range, lemma_split_edges_origin};
use crate::icosphere::subdivided;

verus! {

/// The corners of a face are three different vertices.
pub open spec fn proper(f: Face) -> bool {
    f.0 != f.1 && f.1 != f.2 && f.2 != f.0
}

/// `v` is a corner of `f`.
pub open spec fn has_corner(f: Face, v: usize) -> bool {
    f.0 == v || f.1 == v || f.2 == v
}

/// Every corner of `f` is a corner of `g`.
pub open spec fn same_vertices(f: Face, g: Face) -> bool {
    has_corner(g, f.0) && has_corner(g, f.1) && has_corner(g, f.2)
}

/// A mesh over `n` vertices in which every face has three different
/// corners and no two faces have the same three.
pub open spec fn simple(faces: Seq<Face>, n: nat) -> bool {
    &&& faces_in_range(faces, n)
    &&& forall|i: int| 0 <= i < faces.len() ==> proper(#[trigger] faces[i])
    &&& forall|i: int, j: int|
        0 <= i < faces.len() && 0 <= j < faces.len() && same_vertices(#[trigger] faces[i], #[trigger] faces[j])
            ==> i == j
}

/// The thirty edges of the icosahedron, in order.
pub open spec fn base_edges() -> Seq<Edge> {
    seq![
        (0, 1), (0, 5), (0, 7), (0, 10), (0, 11), (1, 5),
        (1, 7), (1, 8), (1, 9), (2, 3), (2, 4), (2, 6),
        (2, 10), (2, 11), (3, 4), (3, 6), (3, 8), (3, 9),
        (4, 5), (4, 9), (4, 11), (5, 9), (5, 11), (6, 7),
        (6, 8), (6, 10), (7, 8), (7, 10), (8, 9), (10, 11),
    ]
}

/// The table of the faces of the icosahedron, entry by entry.
pub proof fn lemma_faces_table()
    ensures
        INDEX@.len() == 20,
        INDEX@[0] == (0usize, 11usize, 5usize),
        INDEX@[1] == (0usize, 5usize, 1usize),
        INDEX@[2] == (0usize, 1usize, 7usize),
        INDEX@[3] == (0usize, 7usize, 10usize),
        INDEX@[4] == (0usize, 10usize, 11usize),
        INDEX@[5] == (1usize, 5usize, 9usize),
        INDEX@[6] == (5usize, 11usize, 4usize),
        INDEX@[7] == (11usize, 10usize, 2usize),
        INDEX@[8] == (10usize, 7usize, 6usize),
        INDEX@[9] == (7usize, 1usize, 8usize),
        INDEX@[10] == (3usize, 9usize, 4usize),
        INDEX@[11] == (3usize, 4usize, 2usize),
        INDEX@[12] == (3usize, 2usize, 6usize),
        INDEX@[13] == (3usize, 6usize, 8usize),
        INDEX@[14] == (3usize, 8usize, 9usize),
        INDEX@[15] == (4usize, 9usize, 5usize),
        INDEX@[16] == (2usize, 4usize, 11usize),
        INDEX@[17] == (6usize, 2usize, 10usize),
        INDEX@[18] == (8usize, 6usize, 7usize),
        INDEX@[19] == (9usize, 8usize, 1usize),
{
    assert(INDEX[0] == (0usize, 11usize, 5usize));
    assert(INDEX[1] == (0usize, 5usize, 1usize));
    assert(INDEX[2] == (0usize, 1usize, 7usize));
    assert(INDEX[3] == (0usize, 7usize, 10usize));
    assert(INDEX[4] == (0usize, 10usize, 11usize));
    assert(INDEX[5] == (1usize, 5usize, 9usize));
    assert(INDEX[6] == (5usize, 11usize, 4usize));
    assert(INDEX[7] == (11usize, 10usize, 2usize));
    assert(INDEX[8] == (10usize, 7usize, 6usize));
    assert(INDEX[9] == (7usize, 1usize, 8usize));
    assert(INDEX[10] == (3usize, 9usize, 4usize));
    assert(INDEX[11] == (3usize, 4usize, 2usize));
    assert(INDEX[12] == (3usize, 2usize, 6usize));
    assert(INDEX[13] == (3usize, 6usize, 8usize));
    assert(INDEX[14] == (3usize, 8usize, 9usize));
    assert(INDEX[15] == (4usize, 9usize, 5usize));
    assert(INDEX[16] == (2usize, 4usize, 11usize));
    assert(INDEX[17] == (6usize, 2usize, 10usize));
    assert(INDEX[18] == (8usize, 6usize, 7usize));
    assert(INDEX[19] == (9usize, 8usize, 1usize));
}

/// `e` comes before `g` in the order of the edges: by the smaller end, then
/// by the larger.
pub open spec fn before(e: Edge, g: Edge) -> bool {
    e.0 < g.0 || (e.0 == g.0 && e.1 < g.1)
}

/// A list in which each edge comes before the next holds no edge twice.
pub proof fn lemma_ordered_is_distinct(list: Seq<Edge>)
    requires
        forall|k: int| 0 <= k < list.len() - 1 ==> before(#[trigger] list[k], list[k + 1]),
    ensures
        forall|i: int, j: int| 0 <= i < j < list.len() ==> before(#[trigger] list[i], #[trigger] list[j]),
        list.no_duplicates(),
    decreases list.len(),
{
    if list.len() > 1 {
        let rest = list.drop_last();
        assert forall|k: int| 0 <= k < rest.len() - 1 implies before(#[trigger] rest[k], rest[k + 1]) by {
            assert(rest[k] == list[k] && rest[k + 1] == list[k + 1]);
        }
        lemma_ordered_is_distinct(rest);
        let last = list.len() - 1;
        assert forall|i: int, j: int| 0 <= i < j < list.len() implies before(
            #[trigger] list[i],
            #[trigger] list[j],
        ) by {
            if j < last {
                assert(rest[i] == list[i] && rest[j] == list[j]);
            } else if i < last - 1 {
                assert(rest[i] == list[i] && rest[last - 1] == list[last - 1]);
                assert(before(list[last - 1], list[last]));
            } else {
                assert(before(list[i], list[i + 1]));
            }
        }
    }
}

/// The list of the edges of the icosahedron, entry by entry.
pub proof fn lemma_edges_table()
    ensures
        base_edges().len() == 30,
        base_edges()[0] == (0usize, 1usize),
        base_edges()[1] == (0usize, 5usize),
        base_edges()[2] == (0usize, 7usize),
        base_edges()[3] == (0usize, 10usize),
        base_edges()[4] == (0usize, 11usize),
        base_edges()[5] == (1usize, 5usize),
        base_edges()[6] == (1usize, 7usize),
        base_edges()[7] == (1usize, 8usize),
        base_edges()[8] == (1usize, 9usize),
        base_edges()[9] == (2usize, 3usize),
        base_edges()[10] == (2usize, 4usize),
        base_edges()[11] == (2usize, 6usize),
        base_edges()[12] == (2usize, 10usize),
        base_edges()[13] == (2usize, 11usize),
        base_edges()[14] == (3usize, 4usize),
        base_edges()[15] == (3usize, 6usize),
        base_edges()[16] == (3usize, 8usize),
        base_edges()[17] == (3usize, 9usize),
        base_edges()[18] == (4usize, 5usize),
        base_edges()[19] == (4usize, 9usize),
        base_edges()[20] == (4usize, 11usize),
        base_edges()[21] == (5usize, 9usize),
        base_edges()[22] == (5usize, 11usize),
        base_edges()[23] == (6usize, 7usize),
        base_edges()[24] == (6usize, 8usize),
        base_edges()[25] == (6usize, 10usize),
        base_edges()[26] == (7usize, 8usize),
        base_edges()[27] == (7usize, 10usize),
        base_edges()[28] == (8usize, 9usize),
        base_edges()[29] == (10usize, 11usize),
{
}

/// The icosahedron has thirty edges.
pub proof fn lemma_base_edges()
    ensures
        edge_set(INDEX@).finite(),
        edge_set(INDEX@).len() == 30,
{
    lemma_faces_table();
    lemma_edges_table();
    let list = base_edges();
    assert forall|k: int| 0 <= k < list.len() - 1 implies before(#[trigger] list[k], list[k + 1]) by {}
    lemma_ordered_is_distinct(list);
    assert forall|e: Edge| list.to_set().contains(e) implies edge_set(INDEX@).contains(e) by {
        let k = choose|k: int| 0 <= k < list.len() && list[k] == e;
        assert(0 <= k < 30);
    }
    assert forall|e: Edge| edge_set(INDEX@).contains(e) implies list.to_set().contains(e) by {
        let i = choose|i: int| 0 <= i < INDEX@.len() && face_joins(#[trigger] INDEX@[i], e.0, e.1);
        assert(0 <= i < 20);
        assert(list.contains(e));
    }
    assert(list.to_set() =~= edge_set(INDEX@));
    list.unique_seq_to_set();
    vstd::seq_lib::seq_to_set_is_finite(list);
}

/// No two faces of the icosahedron have the same three vertices.
pub proof fn lemma_faces_differ(i: int, j: int)
    requires
        0 <= i < 20,
        0 <= j < 20,
        i != j,
    ensures
        !same_vertices(INDEX@[i], INDEX@[j]),
{
    lemma_faces_table();
}

/// The icosahedron is a simple mesh over twelve vertices.
pub proof fn lemma_base_simple()
    ensures
        simple(INDEX@, 12),
{
    lemma_faces_table();
    assert forall|i: int| 0 <= i < INDEX@.len() implies proper(#[trigger] INDEX@[i]) && INDEX@[i].0 < 12
        && INDEX@[i].1 < 12 && INDEX@[i].2 < 12 by {
        crate::icosphere::lemma_index_table(i);
    }
    assert forall|i: int, j: int|
        0 <= i < INDEX@.len() && 0 <= j < INDEX@.len() && same_vertices(
            #[trigger] INDEX@[i],
            #[trigger] INDEX@[j],
        ) implies i == j by {
        if i != j {
            lemma_faces_differ(i, j);
        }
    }
}

/// The midpoints of the three sides of a face, in the order of the sides.
pub open spec fn mids(f: Face, edges: Seq<Edge>, n: nat) -> Face {
    (midpoint(edges, n, f.0, f.1), midpoint(edges, n, f.1, f.2), midpoint(edges, n, f.2, f.0))
}

/// The edges that a round of subdivision leaves, each once with its
/// smaller end first: the two halves of each edge that was split, then the
/// three edges between the midpoints of each face.
pub open spec fn new_edge(faces: Seq<Face>, edges: Seq<Edge>, n: nat, t: int) -> Edge {
    if t < 2 * edges.len() {
        let e = edges[t / 2];
        let m = (n + t / 2) as usize;
        if t % 2 == 0 {
            (e.0, m)
        } else {
            (e.1, m)
        }
    } else {
        let r = t - 2 * edges.len();
        let m = mids(faces[r / 3], edges, n);
        if r % 3 == 0 {
            undirected((m.0, m.1))
        } else if r % 3 == 1 {
            undirected((m.1, m.2))
        } else {
            undirected((m.2, m.0))
        }
    }
}

/// The list of the edges that a round of subdivision leaves.
pub open spec fn new_edges(faces: Seq<Face>, edges: Seq<Edge>, n: nat) -> Seq<Edge> {
    Seq::new((2 * edges.len() + 3 * faces.len()) as nat, |t: int| new_edge(faces, edges, n, t))
}

/// The midpoint of an edge that was split is a new vertex, and the edge is
/// the one listed at its place.
pub proof fn lemma_midpoint_place(edges: Seq<Edge>, n: nat, a: usize, b: usize)
    requires
        distinct_edges(edges),
        has_edge(edges, a, b),
        n + edges.len() <= usize::MAX,
    ensures
        n <= midpoint(edges, n, a, b) < n + edges.len(),
        midpoint(edges, n, a, b) - n == edge_index(edges, a, b),
        same_edge(edges[midpoint(edges, n, a, b) - n], a, b),
        midpoint(edges, n, a, b) == midpoint(edges, n, b, a),
{
    let k = edge_index(edges, a, b);
    assert(0 <= k < edges.len() && same_edge(edges[k], a, b));
    lemma_midpoint_symmetric(edges, n, a, b);
}

/// Two edges with the same midpoint join the same two vertices.
pub proof fn lemma_midpoint_injective(edges: Seq<Edge>, n: nat, a: usize, b: usize, c: usize, d: usize)
    requires
        distinct_edges(edges),
        has_edge(edges, a, b),
        has_edge(edges, c, d),
        n + edges.len() <= usize::MAX,
        midpoint(edges, n, a, b) == midpoint(edges, n, c, d),
    ensures
        same_edge((a, b), c, d),
{
    lemma_midpoint_place(edges, n, a, b);
    lemma_midpoint_place(edges, n, c, d);
}

/// What holds of a face of a simple mesh and its midpoints: each side has
/// a midpoint among the new vertices, and the three midpoints differ.
pub open spec fn split_well(f: Face, edges: Seq<Edge>, n: nat) -> bool {
    let m = mids(f, edges, n);
    &&& f.0 < n && f.1 < n && f.2 < n
    &&& proper(f)
    &&& has_edge(edges, f.0, f.1) && has_edge(edges, f.1, f.2) && has_edge(edges, f.2, f.0)
    &&& n <= m.0 < n + edges.len() && n <= m.1 < n + edges.len() && n <= m.2 < n + edges.len()
    &&& m.0 != m.1 && m.1 != m.2 && m.2 != m.0
    &&& same_edge(edges[m.0 - n], f.0, f.1)
    &&& same_edge(edges[m.1 - n], f.1, f.2)
    &&& same_edge(edges[m.2 - n], f.2, f.0)
}

/// Every face of a simple mesh is split well.
pub proof fn lemma_split_well(faces: Seq<Face>, n: nat, i: int)
    requires
        simple(faces, n),
        n + 3 * faces.len() <= usize::MAX,
        0 <= i < faces.len(),
    ensures
        split_well(faces[i], split_edges(faces, faces.len()), n),
        distinct_edges(split_edges(faces, faces.len())),
        n + split_edges(faces, faces.len()).len() <= usize::MAX,
{
    let edges = split_edges(faces, faces.len());
    let f = faces[i];
    lemma_split_edges_distinct(faces, faces.len());
    lemma_split_edges_cover(faces, faces.len(), i);
    lemma_midpoint_place(edges, n, f.0, f.1);
    lemma_midpoint_place(edges, n, f.1, f.2);
    lemma_midpoint_place(edges, n, f.2, f.0);
    assert(proper(f));
}

/// Where midpoints of sides of two faces agree, the sides join the same
/// two vertices.
pub open spec fn mids_agree(f: Face, g: Face, edges: Seq<Edge>, n: nat) -> bool {
    let m = mids(f, edges, n);
    let q = mids(g, edges, n);
    &&& m.0 == q.0 ==> same_edge((f.0, f.1), g.0, g.1)
    &&& m.0 == q.1 ==> same_edge((f.0, f.1), g.1, g.2)
    &&& m.0 == q.2 ==> same_edge((f.0, f.1), g.2, g.0)
    &&& m.1 == q.0 ==> same_edge((f.1, f.2), g.0, g.1)
    &&& m.1 == q.1 ==> same_edge((f.1, f.2), g.1, g.2)
    &&& m.1 == q.2 ==> same_edge((f.1, f.2), g.2, g.0)
    &&& m.2 == q.0 ==> same_edge((f.2, f.0), g.0, g.1)
    &&& m.2 == q.1 ==> same_edge((f.2, f.0), g.1, g.2)
    &&& m.2 == q.2 ==> same_edge((f.2, f.0), g.2, g.0)
}

/// The midpoints of any two faces of a simple mesh agree only where their
/// sides do.
pub proof fn lemma_mids_agree(faces: Seq<Face>, n: nat, i: int, j: int)
    requires
        simple(faces, n),
        n + 3 * faces.len() <= usize::MAX,
        0 <= i < faces.len(),
        0 <= j < faces.len(),
    ensures
        mids_agree(faces[i], faces[j], split_edges(faces, faces.len()), n),
{
    let edges = split_edges(faces, faces.len());
    let f = faces[i];
    let g = faces[j];
    let m = mids(f, edges, n);
    let q = mids(g, edges, n);
    lemma_split_well(faces, n, i);
    lemma_split_well(faces, n, j);
    if m.0 == q.0 {
        lemma_midpoint_injective(edges, n, f.0, f.1, g.0, g.1);
    }
    if m.0 == q.1 {
        lemma_midpoint_injective(edges, n, f.0, f.1, g.1, g.2);
    }
    if m.0 == q.2 {
        lemma_midpoint_injective(edges, n, f.0, f.1, g.2, g.0);
    }
    if m.1 == q.0 {
        lemma_midpoint_injective(edges, n, f.1, f.2, g.0, g.1);
    }
    if m.1 == q.1 {
        lemma_midpoint_injective(edges, n, f.1, f.2, g.1, g.2);
    }
    if m.1 == q.2 {
        lemma_midpoint_injective(edges, n, f.1, f.2, g.2, g.0);
    }
    if m.2 == q.0 {
        lemma_midpoint_injective(edges, n, f.2, f.0, g.0, g.1);
    }
    if m.2 == q.1 {
        lemma_midpoint_injective(edges, n, f.2, f.0, g.1, g.2);
    }
    if m.2 == q.2 {
        lemma_midpoint_injective(edges, n, f.2, f.0, g.2, g.0);
    }
}

/// Two of the faces that a round of subdivision leaves have the same three
/// vertices only if they are the same face.
pub proof fn lemma_children_differ(faces: Seq<Face>, n: nat, k: int, l: int)
    requires
        simple(faces, n),
        n + 3 * faces.len() <= usize::MAX,
        0 <= k < 4 * faces.len(),
        0 <= l < 4 * faces.len(),
        same_vertices(
            child_face(faces[k / 4], k % 4, split_edges(faces, faces.len()), n),
            child_face(faces[l / 4], l % 4, split_edges(faces, faces.len()), n),
        ),
    ensures
        k == l,
{
    let edges = split_edges(faces, faces.len());
    let f = faces[k / 4];
    let g = faces[l / 4];
    lemma_split_well(faces, n, k / 4);
    lemma_split_well(faces, n, l / 4);
    lemma_mids_agree(faces, n, k / 4, l / 4);
    assert(same_vertices(f, g));
    assert(k / 4 == l / 4);
}

/// A round of subdivision of a simple mesh leaves a simple mesh.
pub proof fn lemma_split_simple(faces: Seq<Face>, n: nat)
    requires
        simple(faces, n),
        n + 3 * faces.len() <= usize::MAX,
    ensures
        simple(
            split_faces(faces, split_edges(faces, faces.len()), n),
            n + split_edges(faces, faces.len()).len(),
        ),
{
    let edges = split_edges(faces, faces.len());
    let next = split_faces(faces, edges, n);
    assert forall|k: int| 0 <= k < next.len() implies proper(#[trigger] next[k]) && next[k].0 < n + edges.len()
        && next[k].1 < n + edges.len() && next[k].2 < n + edges.len() by {
        lemma_split_well(faces, n, k / 4);
    }
    assert forall|k: int, l: int|
        0 <= k < next.len() && 0 <= l < next.len() && same_vertices(
            #[trigger] next[k],
            #[trigger] next[l],
        ) implies k == l by {
        lemma_children_differ(faces, n, k, l);
    }
}

/// The half of an edge that was split, from its end `a` to its midpoint,
/// is among the edges that the round leaves.
pub proof fn lemma_half_listed(faces: Seq<Face>, n: nat, a: usize, b: usize)
    requires
        simple(faces, n),
        n + 3 * faces.len() <= usize::MAX,
        has_edge(split_edges(faces, faces.len()), a, b),
    ensures
        new_edges(faces, split_edges(faces, faces.len()), n).contains(
            (a, midpoint(split_edges(faces, faces.len()), n, a, b)),
        ),
        a < midpoint(split_edges(faces, faces.len()), n, a, b),
{
    let edges = split_edges(faces, faces.len());
    let list = new_edges(faces, edges, n);
    lemma_split_edges_distinct(faces, faces.len());
    lemma_split_edges_in_range(faces, faces.len(), n);
    lemma_midpoint_place(edges, n, a, b);
    let k = edge_index(edges, a, b);
    assert(edges[k].0 < n && edges[k].1 < n);
    if edges[k].0 == a {
        assert(list[2 * k] == (a, midpoint(edges, n, a, b)));
    } else {
        assert(list[2 * k + 1] == (a, midpoint(edges, n, a, b)));
    }
}

/// No edge is listed twice among the edges that a round leaves.
pub proof fn lemma_new_edges_differ(faces: Seq<Face>, n: nat, t: int, u: int)
    requires
        simple(faces, n),
        n + 3 * faces.len() <= usize::MAX,
        0 <= t < new_edges(faces, split_edges(faces, faces.len()), n).len(),
        0 <= u < new_edges(faces, split_edges(faces, faces.len()), n).len(),
        t != u,
    ensures
        new_edges(faces, split_edges(faces, faces.len()), n)[t] != new_edges(
            faces,
            split_edges(faces, faces.len()),
            n,
        )[u],
{
    let edges = split_edges(faces, faces.len());
    let list = new_edges(faces, edges, n);
    let halves = 2 * edges.len();
    lemma_split_edges_distinct(faces, faces.len());
    lemma_split_edges_in_range(faces, faces.len(), n);
    if t < halves && u < halves {
        lemma_split_edges_origin(faces, faces.len(), t / 2);
        let i = choose|i: int|
            0 <= i < faces.len() && face_joins(#[trigger] faces[i], edges[t / 2].0, edges[t / 2].1);
        assert(proper(faces[i]));
        assert(edges[t / 2].0 != edges[t / 2].1);
    } else if t < halves {
        lemma_split_well(faces, n, (u - halves) / 3);
        assert(edges[t / 2].0 < n && edges[t / 2].1 < n);
    } else if u < halves {
        lemma_split_well(faces, n, (t - halves) / 3);
        assert(edges[u / 2].0 < n && edges[u / 2].1 < n);
    } else {
        let i = (t - halves) / 3;
        let j = (u - halves) / 3;
        lemma_split_well(faces, n, i);
        lemma_split_well(faces, n, j);
        lemma_mids_agree(faces, n, i, j);
        if list[t] == list[u] {
            assert(same_vertices(faces[i], faces[j]));
            assert(i == j);
        }
    }
}

/// Every edge that is listed is an edge of the new mesh.
pub proof fn lemma_listed_is_edge(faces: Seq<Face>, n: nat, t: int)
    requires
        simple(faces, n),
        n + 3 * faces.len() <= usize::MAX,
        0 <= t < new_edges(faces, split_edges(faces, faces.len()), n).len(),
    ensures
        edge_set(split_faces(faces, split_edges(faces, faces.len()), n)).contains(
            new_edges(faces, split_edges(faces, faces.len()), n)[t],
        ),
{
    let edges = split_edges(faces, faces.len());
    let next = split_faces(faces, edges, n);
    let list = new_edges(faces, edges, n);
    let halves = 2 * edges.len();
    let e = list[t];
    lemma_split_edges_distinct(faces, faces.len());
    lemma_split_edges_in_range(faces, faces.len(), n);
    if t < halves {
        let k = t / 2;
        lemma_split_edges_origin(faces, faces.len(), k);
        let i = choose|i: int| 0 <= i < faces.len() && face_joins(#[trigger] faces[i], edges[k].0, edges[k].1);
        let f = faces[i];
        lemma_split_well(faces, n, i);
        assert(edges[k].0 < n && edges[k].1 < n);
        if same_edge((f.0, f.1), edges[k].0, edges[k].1) {
            lemma_edge_index_unique(edges, f.0, f.1, k);
            assert(face_joins(next[4 * i], e.0, e.1) || face_joins(next[4 * i + 1], e.0, e.1));
        } else if same_edge((f.1, f.2), edges[k].0, edges[k].1) {
            lemma_edge_index_unique(edges, f.1, f.2, k);
            assert(face_joins(next[4 * i + 1], e.0, e.1) || face_joins(next[4 * i + 2], e.0, e.1));
        } else {
            lemma_edge_index_unique(edges, f.2, f.0, k);
            assert(face_joins(next[4 * i + 2], e.0, e.1) || face_joins(next[4 * i], e.0, e.1));
        }
    } else {
        let i = (t - halves) / 3;
        lemma_split_well(faces, n, i);
        assert(face_joins(next[4 * i + 3], e.0, e.1));
    }
}

/// Every edge of the new mesh is listed.
pub proof fn lemma_edge_is_listed(faces: Seq<Face>, n: nat, k: int, e: Edge)
    requires
        simple(faces, n),
        n + 3 * faces.len() <= usize::MAX,
        0 <= k < 4 * faces.len(),
        e.0 <= e.1,
        face_joins(child_face(faces[k / 4], k % 4, split_edges(faces, faces.len()), n), e.0, e.1),
    ensures
        new_edges(faces, split_edges(faces, faces.len()), n).contains(e),
{
    let edges = split_edges(faces, faces.len());
    let list = new_edges(faces, edges, n);
    let halves = 2 * edges.len();
    let i = k / 4;
    let f = faces[i];
    let m = mids(f, edges, n);
    lemma_split_well(faces, n, i);
    lemma_half_listed(faces, n, f.0, f.1);
    lemma_half_listed(faces, n, f.1, f.0);
    lemma_half_listed(faces, n, f.1, f.2);
    lemma_half_listed(faces, n, f.2, f.1);
    lemma_half_listed(faces, n, f.2, f.0);
    lemma_half_listed(faces, n, f.0, f.2);
    lemma_midpoint_place(edges, n, f.0, f.1);
    lemma_midpoint_place(edges, n, f.1, f.2);
    lemma_midpoint_place(edges, n, f.2, f.0);
    assert(list[halves + 3 * i] == undirected((m.0, m.1)));
    assert(list[halves + 3 * i + 1] == undirected((m.1, m.2)));
    assert(list[halves + 3 * i + 2] == undirected((m.2, m.0)));
}

/// The edges that a round of subdivision of a simple mesh leaves are those
/// of the new mesh, each listed once.
pub proof fn lemma_new_edges(faces: Seq<Face>, n: nat)
    requires
        simple(faces, n),
        n + 3 * faces.len() <= usize::MAX,
    ensures
        new_edges(faces, split_edges(faces, faces.len()), n).no_duplicates(),
        new_edges(faces, split_edges(faces, faces.len()), n).to_set() == edge_set(
            split_faces(faces, split_edges(faces, faces.len()), n),
        ),
{
    let edges = split_edges(faces, faces.len());
    let next = split_faces(faces, edges, n);
    let list = new_edges(faces, edges, n);
    assert forall|t: int, u: int| 0 <= t < list.len() && 0 <= u < list.len() && t != u implies list[t]
        != list[u] by {
        lemma_new_edges_differ(faces, n, t, u);
    }
    assert forall|e: Edge| list.to_set().contains(e) implies edge_set(next).contains(e) by {
        let t = choose|t: int| 0 <= t < list.len() && list[t] == e;
        lemma_listed_is_edge(faces, n, t);
    }
    assert forall|e: Edge| edge_set(next).contains(e) implies list.to_set().contains(e) by {
        let k = choose|k: int| 0 <= k < next.len() && face_joins(#[trigger] next[k], e.0, e.1);
        lemma_edge_is_listed(faces, n, k, e);
    }
    assert(list.to_set() =~= edge_set(next));
}

/// A round of subdivision of a simple mesh halves every edge and adds three
/// edges in every face.
pub proof fn lemma_split_edge_count(faces: Seq<Face>, n: nat)
    requires
        simple(faces, n),
        n + 3 * faces.len() <= usize::MAX,
    ensures
        edge_set(split_faces(faces, split_edges(faces, faces.len()), n)).finite(),
        edge_set(split_faces(faces, split_edges(faces, faces.len()), n)).len() == 2 * edge_set(faces).len() + 3
            * faces.len(),
{
    let edges = split_edges(faces, faces.len());
    let list = new_edges(faces, edges, n);
    lemma_new_edges(faces, n);
    lemma_one_vertex_per_edge(faces);
    list.unique_seq_to_set();
    vstd::seq_lib::seq_to_set_is_finite(list);
}

/// What holds of the icosahedron after `k` rounds of subdivision: it is a
/// simple mesh of 10·4^k + 2 vertices, 30·4^k edges and 20·4^k faces.
pub open spec fn counted(k: nat) -> bool {
    let mesh = geodesic(k);
    &&& simple(mesh.faces, mesh.parents.len())
    &&& mesh.parents.len() == 10 * pow(4, k) + 2
    &&& edge_set(mesh.faces).finite()
    &&& edge_set(mesh.faces).len() == 30 * pow(4, k)
    &&& mesh.faces.len() == 20 * pow(4, k)
}

/// Vertex count: the icosahedron after `k` rounds of subdivision has
/// 10·4^k + 2 vertices, as long as its corners can be counted in a machine
/// word.
pub proof fn lemma_geodesic_vertex_count(k: nat)
    requires
        60 * pow(4, k) <= usize::MAX,
    ensures
        counted(k),
        geodesic(k).parents.len() == 10 * pow(4, k) + 2,
    decreases k,
{
    reveal(pow);
    if k == 0 {
        assert(pow(4, 0) == 1);
        lemma_base_simple();
        lemma_base_edges();
        lemma_faces_table();
    } else {
        let j = (k - 1) as nat;
        assert(pow(4, k) == 4 * pow(4, j));
        vstd::arithmetic::power::lemma_pow_positive(4, j);
        lemma_geodesic_vertex_count(j);
        let mesh = geodesic(j);
        lemma_split_simple(mesh.faces, mesh.parents.len());
        lemma_split_edge_count(mesh.faces, mesh.parents.len());
        lemma_geodesic_vertex_growth(j);
        lemma_one_vertex_per_edge(mesh.faces);
        lemma_geodesic_face_count(k);
        assert(geodesic(k) == subdivided(mesh));
    }
}

/// `f` has a side that runs from `a` to `b`.
pub open spec fn has_side(f: Face, a: usize, b: usize) -> bool {
    (f.0 == a && f.1 == b) || (f.1 == a && f.2 == b) || (f.2 == a && f.0 == b)
}

/// Some face has a side that runs from `b` to `a`: the face across the
/// side from `a` to `b`.
pub open spec fn across(faces: Seq<Face>, a: usize, b: usize) -> bool {
    exists|j: int| 0 <= j < faces.len() && has_side(#[trigger] faces[j], b, a)
}

/// A closed surface with consistent winding: across every side of every
/// face lies a face that runs along it the other way, and no two faces run
/// along a side the same way.
pub open spec fn closed(faces: Seq<Face>) -> bool {
    &&& forall|i: int, a: usize, b: usize|
        0 <= i < faces.len() && #[trigger] has_side(faces[i], a, b) ==> across(faces, a, b)
    &&& forall|i: int, j: int, a: usize, b: usize|
        0 <= i < faces.len() && 0 <= j < faces.len() && #[trigger] has_side(faces[i], a, b) && #[trigger] has_side(
            faces[j],
            a,
            b,
        ) ==> i == j
}

/// The icosahedron is a closed surface with consistent winding.
pub proof fn lemma_base_closed()
    ensures
        closed(INDEX@),
{
    lemma_faces_table();
    assert forall|i: int, a: usize, b: usize| 0 <= i < INDEX@.len() && #[trigger] has_side(
        INDEX@[i],
        a,
        b,
    ) implies across(INDEX@, a, b) by {
        lemma_base_across(i, a, b);
    }
    assert forall|i: int, j: int, a: usize, b: usize|
        0 <= i < INDEX@.len() && 0 <= j < INDEX@.len() && #[trigger] has_side(INDEX@[i], a, b) && #[trigger] has_side(
            INDEX@[j],
            a,
            b,
        ) implies i == j by {
        lemma_base_wound(i, j, a, b);
    }
}

/// Across each side of each face of the icosahedron lies another face.
pub proof fn lemma_base_across(i: int, a: usize, b: usize)
    requires
        0 <= i < 20,
        has_side(INDEX@[i], a, b),
    ensures
        across(INDEX@, a, b),
{
    lemma_faces_table();
}

/// No two faces of the icosahedron run along a side the same way.
pub proof fn lemma_base_wound(i: int, j: int, a: usize, b: usize)
    requires
        0 <= i < 20,
        0 <= j < 20,
        has_side(INDEX@[i], a, b),
        has_side(INDEX@[j], a, b),
    ensures
        i == j,
{
    lemma_faces_table();
}

/// No two of the faces that a round of subdivision leaves run along a side
/// the same way.
pub proof fn lemma_children_wound(faces: Seq<Face>, n: nat, k: int, l: int, x: usize, y: usize)
    requires
        simple(faces, n),
        closed(faces),
        n + 3 * faces.len() <= usize::MAX,
        0 <= k < 4 * faces.len(),
        0 <= l < 4 * faces.len(),
        has_side(child_face(faces[k / 4], k % 4, split_edges(faces, faces.len()), n), x, y),
        has_side(child_face(faces[l / 4], l % 4, split_edges(faces, faces.len()), n), x, y),
    ensures
        k == l,
{
    let edges = split_edges(faces, faces.len());
    let f = faces[k / 4];
    let g = faces[l / 4];
    lemma_split_well(faces, n, k / 4);
    lemma_split_well(faces, n, l / 4);
    lemma_mids_agree(faces, n, k / 4, l / 4);
    if x < n {
        // a side from a corner to the midpoint of the side that leaves the corner
        if f.0 == x {
            assert(has_side(f, f.0, f.1));
        } else if f.1 == x {
            assert(has_side(f, f.1, f.2));
        } else {
            assert(has_side(f, f.2, f.0));
        }
        if g.0 == x {
            assert(has_side(g, g.0, g.1));
        } else if g.1 == x {
            assert(has_side(g, g.1, g.2));
        } else {
            assert(has_side(g, g.2, g.0));
        }
        assert(k / 4 == l / 4);
    } else if y < n {
        // a side from the midpoint of the side that enters a corner to the corner
        if f.0 == y {
            assert(has_side(f, f.2, f.0));
        } else if f.1 == y {
            assert(has_side(f, f.0, f.1));
        } else {
            assert(has_side(f, f.1, f.2));
        }
        if g.0 == y {
            assert(has_side(g, g.2, g.0));
        } else if g.1 == y {
            assert(has_side(g, g.0, g.1));
        } else {
            assert(has_side(g, g.1, g.2));
        }
        assert(k / 4 == l / 4);
    } else {
        assert(same_vertices(f, g));
        assert(k / 4 == l / 4);
    }
}

/// Across each side of each of the faces that a round of subdivision
/// leaves lies another of them.
pub proof fn lemma_children_across(faces: Seq<Face>, n: nat, k: int, x: usize, y: usize)
    requires
        simple(faces, n),
        closed(faces),
        n + 3 * faces.len() <= usize::MAX,
        0 <= k < 4 * faces.len(),
        has_side(child_face(faces[k / 4], k % 4, split_edges(faces, faces.len()), n), x, y),
    ensures
        across(split_faces(faces, split_edges(faces, faces.len()), n), x, y),
{
    let edges = split_edges(faces, faces.len());
    let next = split_faces(faces, edges, n);
    let i = k / 4;
    let f = faces[i];
    lemma_split_well(faces, n, i);
    lemma_midpoint_place(edges, n, f.0, f.1);
    lemma_midpoint_place(edges, n, f.1, f.2);
    lemma_midpoint_place(edges, n, f.2, f.0);
    if x >= n && y >= n {
        // between two midpoints: the corner faces and the centre face of one face lie across each other
        assert(has_side(next[4 * i], y, x) || has_side(next[4 * i + 1], y, x) || has_side(next[4 * i + 2], y, x)
            || has_side(next[4 * i + 3], y, x));
    } else {
        // half of a side: the face across the side is split at the same midpoint
        let (a, b) = if (x < n && f.0 == x) || (y < n && f.1 == y) {
            (f.0, f.1)
        } else if (x < n && f.1 == x) || (y < n && f.2 == y) {
            (f.1, f.2)
        } else {
            (f.2, f.0)
        };
        assert(has_side(f, a, b));
        assert(across(faces, a, b));
        let j = choose|j: int| 0 <= j < faces.len() && has_side(#[trigger] faces[j], b, a);
        let g = faces[j];
        lemma_split_well(faces, n, j);
        lemma_midpoint_place(edges, n, g.0, g.1);
        lemma_midpoint_place(edges, n, g.1, g.2);
        lemma_midpoint_place(edges, n, g.2, g.0);
        assert(has_side(next[4 * j], y, x) || has_side(next[4 * j + 1], y, x) || has_side(next[4 * j + 2], y, x));
    }
}

/// A round of subdivision of a closed surface with consistent winding
/// leaves one.
pub proof fn lemma_split_closed(faces: Seq<Face>, n: nat)
    requires
        simple(faces, n),
        closed(faces),
        n + 3 * faces.len() <= usize::MAX,
    ensures
        closed(split_faces(faces, split_edges(faces, faces.len()), n)),
{
    let edges = split_edges(faces, faces.len());
    let next = split_faces(faces, edges, n);
    assert forall|k: int, x: usize, y: usize| 0 <= k < next.len() && #[trigger] has_side(
        next[k],
        x,
        y,
    ) implies across(next, x, y) by {
        lemma_children_across(faces, n, k, x, y);
    }
    assert forall|k: int, l: int, x: usize, y: usize|
        0 <= k < next.len() && 0 <= l < next.len() && #[trigger] has_side(next[k], x, y) && #[trigger] has_side(
            next[l],
            x,
            y,
        ) implies k == l by {
        lemma_children_wound(faces, n, k, l, x, y);
    }
}

/// Closed surface: the icosahedron after `k` rounds of subdivision is a
/// closed surface with consistent winding, as long as its corners can be
/// counted in a machine word.
pub proof fn lemma_geodesic_closed(k: nat)
    requires
        60 * pow(4, k) <= usize::MAX,
    ensures
        closed(geodesic(k).faces),
    decreases k,
{
    reveal(pow);
    if k == 0 {
        lemma_base_closed();
    } else {
        let j = (k - 1) as nat;
        assert(pow(4, k) == 4 * pow(4, j));
        vstd::arithmetic::power::lemma_pow_positive(4, j);
        lemma_geodesic_closed(j);
        lemma_geodesic_vertex_count(j);
        lemma_split_closed(geodesic(j).faces, geodesic(j).parents.len());
    }
}

} // verus!
