use vstd::prelude::*;
use vstd::arithmetic::power::pow;
use rustc_hash::FxHashMap;
use crate::edge_cache::{cache_entries, cache_get, cache_insert, cache_new};

verus! {

/// A directed pair of vertex indices.
pub type Edge = (usize, usize);

/// The three vertex indices of a triangle, in winding order.
pub type Face = (usize, usize, usize);

/// The twenty faces of the regular icosahedron over its twelve vertices.
pub const INDEX: [Face; 20] = [
    (0, 11, 5), (0, 5, 1), (0, 1, 7), (0, 7, 10),
    (0, 10, 11), (1, 5, 9), (5, 11, 4), (11, 10, 2),
    (10, 7, 6), (7, 1, 8), (3, 9, 4), (3, 4, 2),
    (3, 2, 6), (3, 6, 8), (3, 8, 9), (4, 9, 5),
    (2, 4, 11), (6, 2, 10), (8, 6, 7), (9, 8, 1),
];

/// Number of vertices of the icosahedron.
pub const BASE_VERTICES: usize = 12;

/// Corner `j` (0, 1 or 2) of a face.
pub open spec fn corner(f: Face, j: int) -> usize {
    if j == 0 {
        f.0
    } else if j == 1 {
        f.1
    } else {
        f.2
    }
}

/// `e` joins `a` and `b`, in either direction.
pub open spec fn same_edge(e: Edge, a: usize, b: usize) -> bool {
    e == (a, b) || e == (b, a)
}

/// Some entry of `edges` joins `a` and `b`.
pub open spec fn has_edge(edges: Seq<Edge>, a: usize, b: usize) -> bool {
    exists|k: int| 0 <= k < edges.len() && same_edge(#[trigger] edges[k], a, b)
}

/// Position in `edges` of an entry that joins `a` and `b`.
pub open spec fn edge_index(edges: Seq<Edge>, a: usize, b: usize) -> int {
    choose|k: int| 0 <= k < edges.len() && same_edge(#[trigger] edges[k], a, b)
}

/// No two entries of `edges` join the same two vertices.
pub open spec fn distinct_edges(edges: Seq<Edge>) -> bool {
    forall|i: int, j: int|
        0 <= i < j < edges.len() ==> !same_edge(#[trigger] edges[i], (#[trigger] edges[j]).0, edges[j].1)
}

/// `longer` starts with all of `shorter`.
pub open spec fn extends(longer: Seq<Edge>, shorter: Seq<Edge>) -> bool {
    &&& shorter.len() <= longer.len()
    &&& forall|k: int| 0 <= k < shorter.len() ==> longer[k] == shorter[k]
}

/// `edges` with the edge from `a` to `b` appended, unless an entry already
/// joins the two.
pub open spec fn record_edge(edges: Seq<Edge>, a: usize, b: usize) -> Seq<Edge> {
    if has_edge(edges, a, b) {
        edges
    } else {
        edges.push((a, b))
    }
}

/// `edges` after the three sides of `f` were recorded in winding order.
pub open spec fn record_face(edges: Seq<Edge>, f: Face) -> Seq<Edge> {
    record_edge(record_edge(record_edge(edges, f.0, f.1), f.1, f.2), f.2, f.0)
}

/// The edges that splitting the first `n` faces creates a midpoint for, in
/// the order in which their midpoints are created.
pub open spec fn split_edges(faces: Seq<Face>, n: nat) -> Seq<Edge>
    decreases n,
{
    if n == 0 {
        Seq::empty()
    } else {
        record_face(split_edges(faces, (n - 1) as nat), faces[n - 1])
    }
}

/// Index of the vertex at the middle of the edge that joins `a` and `b`,
/// where the midpoints of `edges` are numbered from `first` on.
pub open spec fn midpoint(edges: Seq<Edge>, first: nat, a: usize, b: usize) -> usize {
    (first + edge_index(edges, a, b)) as usize
}

/// One of the four faces that replace `f`: the corner triangles at its
/// first, second and third vertex (`part` 0, 1, 2), then the centre triangle.
pub open spec fn child_face(f: Face, part: int, edges: Seq<Edge>, first: nat) -> Face {
    let m0 = midpoint(edges, first, f.0, f.1);
    let m1 = midpoint(edges, first, f.1, f.2);
    let m2 = midpoint(edges, first, f.2, f.0);
    if part == 0 {
        (f.0, m0, m2)
    } else if part == 1 {
        (f.1, m1, m0)
    } else if part == 2 {
        (f.2, m2, m1)
    } else {
        (m0, m1, m2)
    }
}

/// The faces after one round: four children for each face, in face order.
pub open spec fn split_faces(faces: Seq<Face>, edges: Seq<Edge>, first: nat) -> Seq<Face> {
    Seq::new(4 * faces.len(), |k: int| child_face(faces[k / 4], k % 4, edges, first))
}

/// Every corner of every face names one of `n` vertices.
pub open spec fn faces_in_range(faces: Seq<Face>, n: nat) -> bool {
    forall|i: int| 0 <= i < faces.len() ==> {
        &&& (#[trigger] faces[i]).0 < n
        &&& faces[i].1 < n
        &&& faces[i].2 < n
    }
}

/// The connectivity of a triangle mesh. `parents[v]` is the edge whose
/// midpoint vertex `v` is; a vertex of the starting solid is its own parent
/// pair `(v, v)`.
pub struct Mesh {
    pub parents: Seq<Edge>,
    pub faces: Seq<Face>,
}

/// The icosahedron: twelve vertices, twenty faces.
pub open spec fn icosahedron() -> Mesh {
    Mesh { parents: Seq::new(12, |v: int| (v as usize, v as usize)), faces: INDEX@ }
}

/// One round of subdivision: a new vertex for each edge, after the existing
/// ones, and four faces for each face.
pub open spec fn subdivided(m: Mesh) -> Mesh {
    let edges = split_edges(m.faces, m.faces.len());
    Mesh { parents: m.parents + edges, faces: split_faces(m.faces, edges, m.parents.len()) }
}

/// The icosahedron after `k` rounds of subdivision.
pub open spec fn geodesic(k: nat) -> Mesh
    decreases k,
{
    if k == 0 {
        icosahedron()
    } else {
        subdivided(geodesic((k - 1) as nat))
    }
}

/// What the edge cache holds while `edges` are the edges recorded so far:
/// both directions of each, under the index of its midpoint.
pub open spec fn cache_matches(entries: Map<Edge, usize>, edges: Seq<Edge>, first: nat) -> bool {
    &&& forall|a: usize, b: usize| #[trigger] entries.contains_key((a, b)) <==> has_edge(edges, a, b)
    &&& forall|a: usize, b: usize| #[trigger]
        entries.contains_key((a, b)) ==> {
            &&& first <= entries[(a, b)] < first + edges.len()
            &&& same_edge(edges[entries[(a, b)] - first], a, b)
        }
}

/// An edge is among `edges` with `e` appended if it is among `edges` or is
/// `e`.
pub proof fn lemma_has_edge_push(edges: Seq<Edge>, e: Edge, a: usize, b: usize)
    ensures
        has_edge(edges.push(e), a, b) <==> has_edge(edges, a, b) || same_edge(e, a, b),
{
    let longer = edges.push(e);
    if has_edge(longer, a, b) {
        let k = choose|k: int| 0 <= k < longer.len() && same_edge(#[trigger] longer[k], a, b);
        if k < edges.len() {
            assert(same_edge(edges[k], a, b));
        }
    }
    if has_edge(edges, a, b) {
        let k = choose|k: int| 0 <= k < edges.len() && same_edge(#[trigger] edges[k], a, b);
        assert(same_edge(longer[k], a, b));
    }
    if same_edge(e, a, b) {
        assert(same_edge(longer[edges.len() as int], a, b));
    }
}

/// Among distinct edges, the entry that joins two vertices is the only one.
pub proof fn lemma_edge_index_unique(edges: Seq<Edge>, a: usize, b: usize, k: int)
    requires
        distinct_edges(edges),
        0 <= k < edges.len(),
        same_edge(edges[k], a, b),
    ensures
        has_edge(edges, a, b),
        edge_index(edges, a, b) == k,
{
    let c = edge_index(edges, a, b);
    assert(0 <= c < edges.len() && same_edge(edges[c], a, b));
    if c < k {
        assert(same_edge(edges[c], edges[k].0, edges[k].1));
    } else if k < c {
        assert(same_edge(edges[k], edges[c].0, edges[c].1));
    }
}

/// The midpoint of an edge does not depend on the direction it is asked in.
pub proof fn lemma_midpoint_symmetric(edges: Seq<Edge>, first: nat, a: usize, b: usize)
    requires
        distinct_edges(edges),
        has_edge(edges, a, b),
    ensures
        midpoint(edges, first, a, b) == midpoint(edges, first, b, a),
{
    let k = edge_index(edges, a, b);
    assert(same_edge(edges[k], b, a));
    lemma_edge_index_unique(edges, b, a, k);
}

/// Appending to a list of distinct edges moves no midpoint.
pub proof fn lemma_edge_index_stable(shorter: Seq<Edge>, longer: Seq<Edge>, a: usize, b: usize)
    requires
        extends(longer, shorter),
        distinct_edges(longer),
        has_edge(shorter, a, b),
    ensures
        has_edge(longer, a, b),
        edge_index(longer, a, b) == edge_index(shorter, a, b),
{
    let k = edge_index(shorter, a, b);
    assert(longer[k] == shorter[k]);
    lemma_edge_index_unique(longer, a, b, k);
}

/// Recording an edge keeps the edges distinct and in place, and adds at
/// most one.
pub proof fn lemma_record_edge(edges: Seq<Edge>, a: usize, b: usize)
    requires
        distinct_edges(edges),
    ensures
        distinct_edges(record_edge(edges, a, b)),
        extends(record_edge(edges, a, b), edges),
        has_edge(record_edge(edges, a, b), a, b),
        record_edge(edges, a, b).len() <= edges.len() + 1,
{
    let longer = record_edge(edges, a, b);
    lemma_has_edge_push(edges, (a, b), a, b);
    if !has_edge(edges, a, b) {
        assert forall|i: int, j: int| 0 <= i < j < longer.len() implies !same_edge(
            #[trigger] longer[i],
            (#[trigger] longer[j]).0,
            longer[j].1,
        ) by {
            if j < edges.len() {
                assert(!same_edge(edges[i], edges[j].0, edges[j].1));
            } else {
                assert(!same_edge(edges[i], a, b));
            }
        }
    }
}

/// An edge that was recorded stays recorded when the list grows.
pub proof fn lemma_has_edge_extends(shorter: Seq<Edge>, longer: Seq<Edge>, a: usize, b: usize)
    requires
        extends(longer, shorter),
        has_edge(shorter, a, b),
    ensures
        has_edge(longer, a, b),
{
    let k = edge_index(shorter, a, b);
    assert(same_edge(longer[k], a, b));
}

/// Recording the sides of a face keeps the edges distinct and in place,
/// and adds at most three.
pub proof fn lemma_record_face(edges: Seq<Edge>, f: Face)
    requires
        distinct_edges(edges),
    ensures
        distinct_edges(record_face(edges, f)),
        extends(record_face(edges, f), edges),
        has_edge(record_face(edges, f), f.0, f.1),
        has_edge(record_face(edges, f), f.1, f.2),
        has_edge(record_face(edges, f), f.2, f.0),
        record_face(edges, f).len() <= edges.len() + 3,
{
    let e1 = record_edge(edges, f.0, f.1);
    let e2 = record_edge(e1, f.1, f.2);
    let e3 = record_edge(e2, f.2, f.0);
    lemma_record_edge(edges, f.0, f.1);
    lemma_record_edge(e1, f.1, f.2);
    lemma_record_edge(e2, f.2, f.0);
    lemma_has_edge_extends(e1, e2, f.0, f.1);
    lemma_has_edge_extends(e2, e3, f.0, f.1);
    lemma_has_edge_extends(e2, e3, f.1, f.2);
}

/// One midpoint per edge: the edges that a round of subdivision creates
/// midpoints for are pairwise distinct, whichever faces share them.
pub proof fn lemma_split_edges_distinct(faces: Seq<Face>, n: nat)
    ensures
        distinct_edges(split_edges(faces, n)),
        split_edges(faces, n).len() <= 3 * n,
    decreases n,
{
    if n > 0 {
        lemma_split_edges_distinct(faces, (n - 1) as nat);
        lemma_record_face(split_edges(faces, (n - 1) as nat), faces[n - 1]);
    }
}

/// The list of edges only grows as more faces are split.
pub proof fn lemma_split_edges_extends(faces: Seq<Face>, m: nat, n: nat)
    requires
        m <= n,
    ensures
        extends(split_edges(faces, n), split_edges(faces, m)),
    decreases n,
{
    if m < n {
        lemma_split_edges_extends(faces, m, (n - 1) as nat);
        lemma_split_edges_distinct(faces, (n - 1) as nat);
        lemma_record_face(split_edges(faces, (n - 1) as nat), faces[n - 1]);
    }
}

/// Every side of every face that was split has a midpoint.
pub proof fn lemma_split_edges_cover(faces: Seq<Face>, n: nat, i: int)
    requires
        0 <= i < n,
    ensures
        has_edge(split_edges(faces, n), faces[i].0, faces[i].1),
        has_edge(split_edges(faces, n), faces[i].1, faces[i].2),
        has_edge(split_edges(faces, n), faces[i].2, faces[i].0),
{
    let at = split_edges(faces, (i + 1) as nat);
    let all = split_edges(faces, n);
    lemma_split_edges_distinct(faces, i as nat);
    lemma_record_face(split_edges(faces, i as nat), faces[i]);
    lemma_split_edges_extends(faces, (i + 1) as nat, n);
    lemma_has_edge_extends(at, all, faces[i].0, faces[i].1);
    lemma_has_edge_extends(at, all, faces[i].1, faces[i].2);
    lemma_has_edge_extends(at, all, faces[i].2, faces[i].0);
}

/// Both ends of every edge are among the first `bound` vertices.
pub open spec fn edges_in_range(edges: Seq<Edge>, bound: nat) -> bool {
    forall|k: int| 0 <= k < edges.len() ==> (#[trigger] edges[k]).0 < bound && edges[k].1 < bound
}

/// Both ends of every edge that gets a midpoint are corners of the faces
/// that were split.
pub proof fn lemma_split_edges_in_range(faces: Seq<Face>, n: nat, bound: nat)
    requires
        n <= faces.len(),
        faces_in_range(faces, bound),
    ensures
        edges_in_range(split_edges(faces, n), bound),
    decreases n,
{
    if n > 0 {
        lemma_split_edges_in_range(faces, (n - 1) as nat, bound);
        let f = faces[n - 1];
        assert(f.0 < bound && f.1 < bound && f.2 < bound);
        let e0 = split_edges(faces, (n - 1) as nat);
        let e1 = record_edge(e0, f.0, f.1);
        let e2 = record_edge(e1, f.1, f.2);
        let e3 = record_edge(e2, f.2, f.0);
        assert(edges_in_range(e1, bound));
        assert(edges_in_range(e2, bound));
        assert(edges_in_range(e3, bound));
    }
}

/// The entries of `parents` from `first` on.
pub open spec fn edges_from(parents: Seq<Edge>, first: nat) -> Seq<Edge> {
    parents.subrange(first as int, parents.len() as int)
}

/// Looks the edge from `a` to `b` up in the cache and returns the index of
/// its midpoint. An edge that is new gets the next free index: it is
/// appended to `parents` and cached in both directions.
fn edge_midpoint(
    cache: &mut FxHashMap<(usize, usize), usize>,
    parents: &mut Vec<Edge>,
    a: usize,
    b: usize,
    Ghost(first): Ghost<nat>,
) -> (mid: usize)
    requires
        first <= old(parents)@.len(),
        distinct_edges(edges_from(old(parents)@, first)),
        cache_matches(cache_entries(*old(cache)), edges_from(old(parents)@, first), first),
    ensures
        final(parents)@ == old(parents)@.subrange(0, first as int) + record_edge(
            edges_from(old(parents)@, first),
            a,
            b,
        ),
        edges_from(final(parents)@, first) == record_edge(edges_from(old(parents)@, first), a, b),
        distinct_edges(edges_from(final(parents)@, first)),
        cache_matches(cache_entries(*final(cache)), edges_from(final(parents)@, first), first),
        mid == midpoint(edges_from(final(parents)@, first), first, a, b),
        mid < final(parents)@.len(),
{
    let ghost before = edges_from(parents@, first);
    let ghost prefix = parents@.subrange(0, first as int);
    proof {
        lemma_record_edge(before, a, b);
        assert(parents@ =~= prefix + before);
    }
    match cache_get(cache, (a, b)) {
        Some(found) => {
            proof {
                assert(cache_entries(*cache).contains_key((a, b)));
                lemma_edge_index_unique(before, a, b, found - first);
            }
            found
        },
        None => {
            let mid = parents.len();
            cache_insert(cache, (a, b), mid);
            cache_insert(cache, (b, a), mid);
            parents.push((a, b));
            proof {
                let after = before.push((a, b));
                assert(!cache_entries(*old(cache)).contains_key((a, b)));
                assert(!has_edge(before, a, b));
                assert(edges_from(parents@, first) =~= after);
                assert(parents@ =~= prefix + after);
                lemma_edge_index_unique(after, a, b, before.len() as int);
                let entries = cache_entries(*cache);
                assert forall|x: usize, y: usize| #[trigger]
                    entries.contains_key((x, y)) <==> has_edge(after, x, y) by {
                    lemma_has_edge_push(before, (a, b), x, y);
                }
                assert forall|x: usize, y: usize| #[trigger] entries.contains_key((x, y)) implies {
                    &&& first <= entries[(x, y)] < first + after.len()
                    &&& same_edge(after[entries[(x, y)] - first], x, y)
                } by {
                    if (x, y) != (a, b) && (x, y) != (b, a) {
                        assert(cache_entries(*old(cache)).contains_key((x, y)));
                    }
                }
            }
            mid
        },
    }
}

/// One round of subdivision. Each face is replaced by four: for each of its
/// sides the midpoint is looked up by the pair of its ends, and created the
/// first time the side is met, so that two faces that share a side share
/// its midpoint. New vertices are appended to `parents`, each as the edge it
/// halves.
pub fn subdivide(parents: Vec<Edge>, indices: Vec<Face>) -> (out: (Vec<Edge>, Vec<Face>))
    ensures
        out.0@ == parents@ + split_edges(indices@, indices@.len()),
        out.1@ == split_faces(indices@, split_edges(indices@, indices@.len()), parents@.len()),
{
    let ghost first = parents@.len();
    let ghost before = parents@;
    let mut parents = parents;
    let mut cache = cache_new();
    let mut nindices: Vec<Face> = Vec::new();
    let mut i: usize = 0;
    proof {
        assert(edges_from(parents@, first) =~= split_edges(indices@, 0));
    }
    while i < indices.len()
        invariant
            i <= indices@.len(),
            first == before.len(),
            first <= parents@.len(),
            parents@.subrange(0, first as int) == before,
            edges_from(parents@, first) == split_edges(indices@, i as nat),
            cache_matches(cache_entries(cache), split_edges(indices@, i as nat), first),
            nindices@.len() == 4 * i,
            forall|k: int|
                0 <= k < 4 * i ==> #[trigger] nindices@[k] == child_face(
                    indices@[k / 4],
                    k % 4,
                    split_edges(indices@, i as nat),
                    first,
                ),
        decreases indices@.len() - i,
    {
        let f = indices[i];
        let ghost e0 = split_edges(indices@, i as nat);
        let ghost done = nindices@;
        proof {
            lemma_split_edges_distinct(indices@, i as nat);
        }
        let m0 = edge_midpoint(&mut cache, &mut parents, f.0, f.1, Ghost(first));
        let ghost e1 = edges_from(parents@, first);
        let m1 = edge_midpoint(&mut cache, &mut parents, f.1, f.2, Ghost(first));
        let ghost e2 = edges_from(parents@, first);
        let m2 = edge_midpoint(&mut cache, &mut parents, f.2, f.0, Ghost(first));
        let ghost e3 = edges_from(parents@, first);
        nindices.push((f.0, m0, m2));
        nindices.push((f.1, m1, m0));
        nindices.push((f.2, m2, m1));
        nindices.push((m0, m1, m2));
        proof {
            assert(e3 == split_edges(indices@, (i + 1) as nat));
            assert(parents@.subrange(0, first as int) =~= before);
            lemma_record_edge(e0, f.0, f.1);
            lemma_record_edge(e1, f.1, f.2);
            lemma_record_edge(e2, f.2, f.0);
            lemma_edge_index_stable(e1, e2, f.0, f.1);
            lemma_edge_index_stable(e2, e3, f.0, f.1);
            lemma_edge_index_stable(e2, e3, f.1, f.2);
            assert forall|k: int| 0 <= k < 4 * (i + 1) implies #[trigger] nindices@[k] == child_face(
                indices@[k / 4],
                k % 4,
                e3,
                first,
            ) by {
                if k < 4 * i {
                    let g = indices@[k / 4];
                    assert(nindices@[k] == done[k]);
                    lemma_split_edges_cover(indices@, i as nat, k / 4);
                    lemma_edge_index_stable(e0, e3, g.0, g.1);
                    lemma_edge_index_stable(e0, e3, g.1, g.2);
                    lemma_edge_index_stable(e0, e3, g.2, g.0);
                } else {
                    assert(k / 4 == i);
                }
            }
        }
        i += 1;
    }
    proof {
        let all = split_edges(indices@, indices@.len());
        assert(parents@ =~= before + all);
        assert(nindices@ =~= split_faces(indices@, all, first));
    }
    (parents, nindices)
}

/// One midpoint for each shared edge: where a side of one face joins the
/// same two vertices as a side of another, in either direction, both
/// faces are split at the same new vertex.
pub proof fn lemma_shared_side_one_midpoint(faces: Seq<Face>, first: nat, i1: int, j1: int, i2: int, j2: int)
    requires
        0 <= i1 < faces.len(),
        0 <= i2 < faces.len(),
        0 <= j1 < 3,
        0 <= j2 < 3,
        same_edge(
            (corner(faces[i1], j1), corner(faces[i1], (j1 + 1) % 3)),
            corner(faces[i2], j2),
            corner(faces[i2], (j2 + 1) % 3),
        ),
    ensures
        midpoint(
            split_edges(faces, faces.len()),
            first,
            corner(faces[i1], j1),
            corner(faces[i1], (j1 + 1) % 3),
        ) == midpoint(
            split_edges(faces, faces.len()),
            first,
            corner(faces[i2], j2),
            corner(faces[i2], (j2 + 1) % 3),
        ),
{
    let all = split_edges(faces, faces.len());
    let a = corner(faces[i1], j1);
    let b = corner(faces[i1], (j1 + 1) % 3);
    lemma_split_edges_distinct(faces, faces.len());
    lemma_split_edges_cover(faces, faces.len(), i1);
    assert(has_edge(all, a, b));
    let k = edge_index(all, a, b);
    lemma_edge_index_unique(all, corner(faces[i2], j2), corner(faces[i2], (j2 + 1) % 3), k);
}

/// Face count: after `k` rounds of subdivision the icosahedron has 20·4^k
/// faces.
pub proof fn lemma_geodesic_face_count(k: nat)
    ensures
        geodesic(k).faces.len() == 20 * pow(4, k),
    decreases k,
{
    reveal(pow);
    if k == 0 {
        assert(pow(4, 0) == 1);
        assert(INDEX@.len() == 20);
    } else {
        lemma_geodesic_face_count((k - 1) as nat);
        assert(pow(4, k) == 4 * pow(4, (k - 1) as nat));
    }
}

/// A side of `f` joins `a` and `b`, in either direction.
pub open spec fn face_joins(f: Face, a: usize, b: usize) -> bool {
    same_edge((f.0, f.1), a, b) || same_edge((f.1, f.2), a, b) || same_edge((f.2, f.0), a, b)
}

/// An edge with its smaller end first.
pub open spec fn undirected(e: Edge) -> Edge {
    if e.0 <= e.1 {
        e
    } else {
        (e.1, e.0)
    }
}

/// The edges of a mesh: each pair of vertices that a side of a face joins,
/// once, with its smaller end first.
pub open spec fn edge_set(faces: Seq<Face>) -> Set<Edge> {
    Set::new(
        |e: Edge| e.0 <= e.1 && exists|i: int| 0 <= i < faces.len() && face_joins(#[trigger] faces[i], e.0, e.1),
    )
}

/// Every edge that gets a midpoint is a side of one of the faces that were
/// split.
pub proof fn lemma_split_edges_origin(faces: Seq<Face>, n: nat, k: int)
    requires
        n <= faces.len(),
        0 <= k < split_edges(faces, n).len(),
    ensures
        exists|i: int|
            0 <= i < n && face_joins(#[trigger] faces[i], split_edges(faces, n)[k].0, split_edges(faces, n)[k].1),
    decreases n,
{
    let f = faces[n - 1];
    let e0 = split_edges(faces, (n - 1) as nat);
    let e1 = record_edge(e0, f.0, f.1);
    let e2 = record_edge(e1, f.1, f.2);
    let e3 = record_edge(e2, f.2, f.0);
    assert(split_edges(faces, n) == e3);
    if k < e0.len() {
        lemma_split_edges_distinct(faces, (n - 1) as nat);
        lemma_record_face(e0, f);
        assert(e3[k] == e0[k]);
        lemma_split_edges_origin(faces, (n - 1) as nat, k);
        let i = choose|i: int| 0 <= i < n - 1 && face_joins(#[trigger] faces[i], e0[k].0, e0[k].1);
        assert(0 <= i < n && face_joins(faces[i], e3[k].0, e3[k].1));
    } else {
        assert(e3[k] == (f.0, f.1) || e3[k] == (f.1, f.2) || e3[k] == (f.2, f.0)) by {
            lemma_split_edges_distinct(faces, (n - 1) as nat);
            lemma_record_edge(e0, f.0, f.1);
            lemma_record_edge(e1, f.1, f.2);
            lemma_record_edge(e2, f.2, f.0);
            if k < e1.len() {
                assert(e3[k] == e1[k]);
            } else if k < e2.len() {
                assert(e3[k] == e2[k]);
            }
        }
        assert(face_joins(faces[n - 1], e3[k].0, e3[k].1));
    }
}

/// One new vertex for each edge, none twice and none missing: a round of
/// subdivision creates as many vertices as the mesh has edges.
pub proof fn lemma_one_vertex_per_edge(faces: Seq<Face>)
    ensures
        edge_set(faces).finite(),
        split_edges(faces, faces.len()).len() == edge_set(faces).len(),
{
    let all = split_edges(faces, faces.len());
    let us = all.map_values(|e: Edge| undirected(e));
    lemma_split_edges_distinct(faces, faces.len());
    assert(us.no_duplicates()) by {
        assert forall|i: int, j: int| 0 <= i < us.len() && 0 <= j < us.len() && i != j implies us[i] != us[j] by {
            if i < j {
                assert(!same_edge(all[i], all[j].0, all[j].1));
            } else {
                assert(!same_edge(all[j], all[i].0, all[i].1));
            }
        }
    }
    assert(us.to_set() =~= edge_set(faces)) by {
        assert forall|e: Edge| us.to_set().contains(e) implies edge_set(faces).contains(e) by {
            let k = choose|k: int| 0 <= k < us.len() && us[k] == e;
            lemma_split_edges_origin(faces, faces.len(), k);
            let i = choose|i: int| 0 <= i < faces.len() && face_joins(#[trigger] faces[i], all[k].0, all[k].1);
            assert(face_joins(faces[i], e.0, e.1));
        }
        assert forall|e: Edge| edge_set(faces).contains(e) implies us.to_set().contains(e) by {
            let i = choose|i: int| 0 <= i < faces.len() && face_joins(#[trigger] faces[i], e.0, e.1);
            lemma_split_edges_cover(faces, faces.len(), i);
            assert(has_edge(all, e.0, e.1));
            let k = edge_index(all, e.0, e.1);
            assert(us[k] == e);
            assert(us.contains(e));
        }
    }
    us.unique_seq_to_set();
    vstd::seq_lib::seq_to_set_is_finite(us);
}

/// Each round of subdivision adds as many vertices as the mesh had edges.
pub proof fn lemma_geodesic_vertex_growth(k: nat)
    ensures
        geodesic(k + 1).parents.len() == geodesic(k).parents.len() + edge_set(geodesic(k).faces).len(),
{
    lemma_one_vertex_per_edge(geodesic(k).faces);
    assert(geodesic(k + 1) == subdivided(geodesic(k)));
}

/// Every vertex after the twelve of the icosahedron is the midpoint of an
/// edge between two vertices that come before it.
pub open spec fn parents_precede(parents: Seq<Edge>) -> bool {
    forall|v: int|
        12 <= v < parents.len() ==> (#[trigger] parents[v]).0 < v && parents[v].1 < v
}

/// A round of subdivision keeps every face within the vertices, as long as
/// the vertex indices fit the machine word.
pub proof fn lemma_subdivided_in_range(m: Mesh)
    requires
        faces_in_range(m.faces, m.parents.len()),
        subdivided(m).parents.len() <= usize::MAX,
    ensures
        faces_in_range(subdivided(m).faces, subdivided(m).parents.len()),
        edges_in_range(split_edges(m.faces, m.faces.len()), m.parents.len()),
        subdivided(m).faces.len() == 4 * m.faces.len(),
        m.parents.len() <= subdivided(m).parents.len() <= m.parents.len() + 3 * m.faces.len(),
{
    let first = m.parents.len();
    let edges = split_edges(m.faces, m.faces.len());
    let after = subdivided(m);
    lemma_split_edges_distinct(m.faces, m.faces.len());
    lemma_split_edges_in_range(m.faces, m.faces.len(), first);
    assert forall|k: int| 0 <= k < after.faces.len() implies {
        &&& (#[trigger] after.faces[k]).0 < after.parents.len()
        &&& after.faces[k].1 < after.parents.len()
        &&& after.faces[k].2 < after.parents.len()
    } by {
        let f = m.faces[k / 4];
        lemma_split_edges_cover(m.faces, m.faces.len(), k / 4);
        assert(f.0 < first && f.1 < first && f.2 < first);
        assert(0 <= edge_index(edges, f.0, f.1) < edges.len());
        assert(0 <= edge_index(edges, f.1, f.2) < edges.len());
        assert(0 <= edge_index(edges, f.2, f.0) < edges.len());
    }
}

/// Face count: the icosahedron after `k` rounds has 20·4^k faces. The
/// vertices stay below that count, every face lies within them, and each
/// new vertex halves an edge between two earlier ones.
pub proof fn lemma_geodesic_shape(k: nat)
    requires
        60 * pow(4, k) <= usize::MAX,
    ensures
        geodesic(k).faces.len() == 20 * pow(4, k),
        12 <= geodesic(k).parents.len() <= 20 * pow(4, k) - 8,
        faces_in_range(geodesic(k).faces, geodesic(k).parents.len()),
        parents_precede(geodesic(k).parents),
    decreases k,
{
    reveal(pow);
    if k == 0 {
        assert(pow(4, 0) == 1);
        assert(INDEX@.len() == 20);
        assert forall|i: int| 0 <= i < INDEX@.len() implies {
            &&& (#[trigger] INDEX@[i]).0 < 12
            &&& INDEX@[i].1 < 12
            &&& INDEX@[i].2 < 12
        } by {
            lemma_index_table(i);
        }
    } else {
        let j = (k - 1) as nat;
        assert(pow(4, k) == 4 * pow(4, j));
        vstd::arithmetic::power::lemma_pow_positive(4, j);
        lemma_geodesic_shape(j);
        let m = geodesic(j);
        lemma_split_edges_distinct(m.faces, m.faces.len());
        lemma_subdivided_in_range(m);
        let after = subdivided(m);
        assert forall|v: int| 12 <= v < after.parents.len() implies (#[trigger] after.parents[v]).0
            < v && after.parents[v].1 < v by {
            if v < m.parents.len() {
                assert(after.parents[v] == m.parents[v]);
            } else {
                let e = split_edges(m.faces, m.faces.len());
                assert(after.parents[v] == e[v - m.parents.len()]);
            }
        }
    }
}

/// Every corner in the table of the icosahedron's faces is one of its
/// twelve vertices.
pub proof fn lemma_index_table(i: int)
    requires
        0 <= i < 20,
    ensures
        INDEX@[i].0 < 12,
        INDEX@[i].1 < 12,
        INDEX@[i].2 < 12,
{
    if i < 5 {
        assert(INDEX[0] == (0usize, 11usize, 5usize));
        assert(INDEX[1] == (0usize, 5usize, 1usize));
        assert(INDEX[2] == (0usize, 1usize, 7usize));
        assert(INDEX[3] == (0usize, 7usize, 10usize));
        assert(INDEX[4] == (0usize, 10usize, 11usize));
    } else if i < 10 {
        assert(INDEX[5] == (1usize, 5usize, 9usize));
        assert(INDEX[6] == (5usize, 11usize, 4usize));
        assert(INDEX[7] == (11usize, 10usize, 2usize));
        assert(INDEX[8] == (10usize, 7usize, 6usize));
        assert(INDEX[9] == (7usize, 1usize, 8usize));
    } else if i < 15 {
        assert(INDEX[10] == (3usize, 9usize, 4usize));
        assert(INDEX[11] == (3usize, 4usize, 2usize));
        assert(INDEX[12] == (3usize, 2usize, 6usize));
        assert(INDEX[13] == (3usize, 6usize, 8usize));
        assert(INDEX[14] == (3usize, 8usize, 9usize));
    } else {
        assert(INDEX[15] == (4usize, 9usize, 5usize));
        assert(INDEX[16] == (2usize, 4usize, 11usize));
        assert(INDEX[17] == (6usize, 2usize, 10usize));
        assert(INDEX[18] == (8usize, 6usize, 7usize));
        assert(INDEX[19] == (9usize, 8usize, 1usize));
    }
}

/// A geodesic sphere: the connectivity of the icosahedron after `subdiv`
/// rounds of subdivision. Positions and normals are made from it by
/// `positions` and `normals`, one triple for each vertex in the order of
/// `parents`, over whatever type the components have.
pub struct IcoSphere {
    pub subdiv: usize,
    pub n_face: usize,
    pub n_vert: usize,
    pub parents: Vec<Edge>,
    pub indices: Vec<Face>,
}

impl View for IcoSphere {
    type V = Mesh;

    open spec fn view(&self) -> Mesh {
        Mesh { parents: self.parents@, faces: self.indices@ }
    }
}

/// The twelve vertices of the icosahedron, each its own parent pair.
fn base_parents() -> (parents: Vec<Edge>)
    ensures
        parents@ == icosahedron().parents,
{
    let mut parents: Vec<Edge> = Vec::new();
    let mut v: usize = 0;
    while v < BASE_VERTICES
        invariant
            v <= 12,
            parents@.len() == v,
            forall|k: int| 0 <= k < v ==> parents@[k] == (k as usize, k as usize),
        decreases 12 - v,
    {
        parents.push((v, v));
        v += 1;
    }
    assert(parents@ =~= icosahedron().parents);
    parents
}

/// The twenty faces of the icosahedron.
fn base_faces() -> (faces: Vec<Face>)
    ensures
        faces@ == icosahedron().faces,
{
    let mut faces: Vec<Face> = Vec::new();
    let mut i: usize = 0;
    while i < 20
        invariant
            i <= 20,
            faces@.len() == i,
            forall|k: int| 0 <= k < i ==> faces@[k] == INDEX@[k],
        decreases 20 - i,
    {
        faces.push(INDEX[i]);
        i += 1;
    }
    assert(faces@ =~= INDEX@);
    faces
}

impl IcoSphere {
    /// The sphere is the icosahedron after `subdiv` rounds, and its counts
    /// agree with it.
    pub open spec fn wf(&self) -> bool {
        &&& self@ == geodesic(self.subdiv as nat)
        &&& self.n_face == 20 * pow(4, self.subdiv as nat)
        &&& self.n_vert == 3 * self.n_face
    }

    /// Builds the sphere by `subdiv` rounds of subdivision of the
    /// icosahedron. `n_vert` counts the corners of the faces, three a face;
    /// the vertices themselves, each shared by the faces that meet in it,
    /// are 10·4^k + 2.
    pub fn new(subdiv: usize) -> (sphere: IcoSphere)
        requires
            60 * pow(4, subdiv as nat) <= usize::MAX,
        ensures
            sphere.wf(),
            sphere.subdiv == subdiv,
            sphere@ == geodesic(subdiv as nat),
            sphere.n_face == 20 * pow(4, subdiv as nat),
            sphere.n_vert == 60 * pow(4, subdiv as nat),
            sphere@.parents.len() == 10 * pow(4, subdiv as nat) + 2,
    {
        let mut parents = base_parents();
        let mut indices = base_faces();
        let mut round: usize = 0;
        while round < subdiv
            invariant
                round <= subdiv,
                (Mesh { parents: parents@, faces: indices@ }) == geodesic(round as nat),
            decreases subdiv - round,
        {
            let (next_parents, next_indices) = subdivide(parents, indices);
            parents = next_parents;
            indices = next_indices;
            round += 1;
        }
        proof {
            lemma_geodesic_shape(subdiv as nat);
            crate::surface::lemma_geodesic_vertex_count(subdiv as nat);
        }
        let n_face = indices.len();
        let n_vert = 3 * n_face;
        IcoSphere { subdiv, n_face, n_vert, parents, indices }
    }

    /// Number of vertices of the mesh.
    pub fn vertex_count(&self) -> (n: usize)
        ensures
            n == self@.parents.len(),
    {
        self.parents.len()
    }

    /// The edge that vertex `v` is the midpoint of; `None` for a vertex of
    /// the icosahedron and for an index past the last vertex.
    pub fn parents_of(&self, v: usize) -> (edge: Option<Edge>)
        ensures
            edge == (if 12 <= v < self@.parents.len() {
                Some(self@.parents[v as int])
            } else {
                None
            }),
    {
        if BASE_VERTICES <= v && v < self.parents.len() {
            Some(self.parents[v])
        } else {
            None
        }
    }

    /// The corners of face `i`; `None` past the last face.
    pub fn face(&self, i: usize) -> (f: Option<Face>)
        ensures
            f == (if i < self@.faces.len() {
                Some(self@.faces[i as int])
            } else {
                None
            }),
    {
        if i < self.indices.len() {
            Some(self.indices[i])
        } else {
            None
        }
    }

    /// One value per corner and component: for corner `i` (face `i / 3`,
    /// corner `i % 3` of it) the three components that `per_vertex` holds
    /// for its vertex.
    fn unroll<T: Copy>(&self, per_vertex: &Vec<[T; 3]>) -> (buf: Vec<T>)
        requires
            self.wf(),
            per_vertex@.len() == self@.parents.len(),
        ensures
            buf@ == unrolled(self@.faces, per_vertex@),
            buf@.len() == 3 * self.n_vert,
    {
        proof {
            lemma_geodesic_shape(self.subdiv as nat);
        }
        let mut buf: Vec<T> = Vec::new();
        let mut i: usize = 0;
        while i < self.n_vert
            invariant
                self.wf(),
                per_vertex@.len() == self@.parents.len(),
                faces_in_range(self@.faces, self@.parents.len()),
                self@.faces.len() == self.n_face,
                i <= self.n_vert,
                buf@.len() == 3 * i,
                forall|k: int| 0 <= k < 3 * i ==> #[trigger] buf@[k] == unrolled(self@.faces, per_vertex@)[k],
            decreases self.n_vert - i,
        {
            let f = self.indices[i / 3];
            let part = i % 3;
            let v = if part == 0 {
                f.0
            } else if part == 1 {
                f.1
            } else {
                f.2
            };
            assert(v == corner(self@.faces[(i / 3) as int], (i % 3) as int));
            let triple = per_vertex[v];
            buf.push(triple[0]);
            buf.push(triple[1]);
            buf.push(triple[2]);
            i += 1;
        }
        assert(buf@ =~= unrolled(self@.faces, per_vertex@));
        buf
    }

    /// The positions, unrolled for drawing without an index buffer: three
    /// components for each corner of each face, vertices repeated as often
    /// as faces meet in them.
    pub fn vertex_buf<T: Copy>(&self, vertices: &Vec<[T; 3]>) -> (buf: Vec<T>)
        requires
            self.wf(),
            vertices@.len() == self@.parents.len(),
        ensures
            buf@ == unrolled(self@.faces, vertices@),
            buf@.len() == 3 * self.n_vert,
    {
        self.unroll(vertices)
    }

    /// The normals, unrolled in the same corner order as the positions.
    pub fn normal_buf<T: Copy>(&self, normals: &Vec<[T; 3]>) -> (buf: Vec<T>)
        requires
            self.wf(),
            normals@.len() == self@.parents.len(),
        ensures
            buf@ == unrolled(self@.faces, normals@),
            buf@.len() == 3 * self.n_vert,
    {
        self.unroll(normals)
    }
}

/// The flat buffer of `9 * faces.len()` values: entry `k` is component
/// `k % 3` of what `per_vertex` holds for corner `(k / 3) % 3` of face
/// `k / 9`.
pub open spec fn unrolled<T>(faces: Seq<Face>, per_vertex: Seq<[T; 3]>) -> Seq<T> {
    Seq::new(
        9 * faces.len(),
        |k: int| per_vertex[corner(faces[k / 9], (k / 3) % 3) as int][k % 3],
    )
}

/// The faces that meet in vertex `v`, in face order, as far as the first
/// `n` corners go: corner `c` is corner `c % 3` of face `c / 3`, and a face
/// is listed once for each of its corners that is `v`.
pub open spec fn incident(faces: Seq<Face>, v: int, n: nat) -> Seq<usize>
    decreases n,
{
    if n == 0 {
        Seq::empty()
    } else {
        let before = incident(faces, v, (n - 1) as nat);
        if corner(faces[(n - 1) / 3], (n - 1) % 3) == v {
            before.push(((n - 1) / 3) as usize)
        } else {
            before
        }
    }
}

/// Vertex `v` is where it belongs: a vertex of the icosahedron at its
/// place in `base`, a later one where `midpoint` puts the middle of its
/// two parents.
pub open spec fn placed_at<S, M: Fn([S; 3], [S; 3]) -> [S; 3]>(
    parents: Seq<Edge>,
    base: Seq<[S; 3]>,
    vertices: Seq<[S; 3]>,
    midpoint: M,
    v: int,
) -> bool {
    if v < base.len() {
        vertices[v] == base[v]
    } else {
        call_ensures(midpoint, (vertices[parents[v].0 as int], vertices[parents[v].1 as int]), vertices[v])
    }
}

/// `vertices` are the positions of the mesh: one for each vertex, each
/// where it belongs.
pub open spec fn placed<S, M: Fn([S; 3], [S; 3]) -> [S; 3]>(
    parents: Seq<Edge>,
    base: Seq<[S; 3]>,
    vertices: Seq<[S; 3]>,
    midpoint: M,
) -> bool {
    &&& vertices.len() == parents.len()
    &&& forall|v: int| 0 <= v < vertices.len() ==> #[trigger] placed_at(parents, base, vertices, midpoint, v)
}

/// `sum` is what adding up the normals of the faces `list`, in order and
/// starting from `zero`, gives.
pub open spec fn sums_to<S, F: Fn([S; 3], [S; 3], [S; 3]) -> [S; 3], A: Fn([S; 3], [S; 3]) -> [S; 3]>(
    faces: Seq<Face>,
    vertices: Seq<[S; 3]>,
    list: Seq<usize>,
    zero: [S; 3],
    sum: [S; 3],
    face_normal: F,
    accumulate: A,
) -> bool
    decreases list.len(),
{
    if list.len() == 0 {
        sum == zero
    } else {
        let f = faces[list.last() as int];
        exists|before: [S; 3], n: [S; 3]|
            {
                &&& sums_to(faces, vertices, list.drop_last(), zero, before, face_normal, accumulate)
                &&& call_ensures(face_normal, (vertices[f.0 as int], vertices[f.1 as int], vertices[f.2 as int]), n)
                &&& #[trigger] call_ensures(accumulate, (before, n), sum)
            }
    }
}

/// The normal of vertex `v` is what `normalize` makes of the sum of the
/// normals of the faces that meet in it.
pub open spec fn shaded_at<
    S,
    F: Fn([S; 3], [S; 3], [S; 3]) -> [S; 3],
    A: Fn([S; 3], [S; 3]) -> [S; 3],
    Z: Fn([S; 3]) -> [S; 3],
>(
    faces: Seq<Face>,
    vertices: Seq<[S; 3]>,
    normals: Seq<[S; 3]>,
    zero: [S; 3],
    face_normal: F,
    accumulate: A,
    normalize: Z,
    v: int,
) -> bool {
    exists|sum: [S; 3]|
        sums_to(faces, vertices, incident(faces, v, 3 * faces.len()), zero, sum, face_normal, accumulate)
            && #[trigger] call_ensures(normalize, (sum,), normals[v])
}

/// `normals` are the smooth normals of the mesh: one for each vertex, each
/// the normalised sum of the normals of the faces that meet in it.
pub open spec fn shaded<
    S,
    F: Fn([S; 3], [S; 3], [S; 3]) -> [S; 3],
    A: Fn([S; 3], [S; 3]) -> [S; 3],
    Z: Fn([S; 3]) -> [S; 3],
>(
    faces: Seq<Face>,
    vertices: Seq<[S; 3]>,
    normals: Seq<[S; 3]>,
    zero: [S; 3],
    face_normal: F,
    accumulate: A,
    normalize: Z,
) -> bool {
    &&& normals.len() == vertices.len()
    &&& forall|v: int|
        0 <= v < normals.len() ==> #[trigger] shaded_at(
            faces,
            vertices,
            normals,
            zero,
            face_normal,
            accumulate,
            normalize,
            v,
        )
}

impl IcoSphere {
    /// The positions of the vertices. The twelve of the icosahedron are
    /// `base`; each later vertex is put where `midpoint` puts the middle of
    /// the edge it halves, which brings it back onto the sphere.
    pub fn positions<S: Copy, M: Fn([S; 3], [S; 3]) -> [S; 3]>(
        &self,
        base: &Vec<[S; 3]>,
        midpoint: M,
    ) -> (vertices: Vec<[S; 3]>)
        requires
            self.wf(),
            base@.len() == 12,
            forall|a: [S; 3], b: [S; 3]| call_requires(midpoint, (a, b)),
        ensures
            placed(self@.parents, base@, vertices@, midpoint),
    {
        proof {
            lemma_geodesic_shape(self.subdiv as nat);
        }
        let mut vertices: Vec<[S; 3]> = Vec::new();
        let mut v: usize = 0;
        while v < self.parents.len()
            invariant
                v <= self.parents@.len(),
                self@.parents == self.parents@,
                parents_precede(self@.parents),
                base@.len() == 12,
                forall|a: [S; 3], b: [S; 3]| call_requires(midpoint, (a, b)),
                vertices@.len() == v,
                forall|k: int| 0 <= k < v ==> #[trigger] placed_at(self@.parents, base@, vertices@, midpoint, k),
            decreases self.parents@.len() - v,
        {
            let ghost earlier = vertices@;
            if v < BASE_VERTICES {
                vertices.push(base[v]);
            } else {
                let (a, b) = self.parents[v];
                let middle = midpoint(vertices[a], vertices[b]);
                vertices.push(middle);
            }
            proof {
                assert forall|k: int| 0 <= k < v + 1 implies #[trigger] placed_at(
                    self@.parents,
                    base@,
                    vertices@,
                    midpoint,
                    k,
                ) by {
                    if k < v {
                        assert(placed_at(self@.parents, base@, earlier, midpoint, k));
                        assert(vertices@[k] == earlier[k]);
                    }
                }
            }
            v += 1;
        }
        vertices
    }

    /// The smooth normals of the vertices. The normal of each face, which
    /// `face_normal` makes of the positions of its corners, is added into
    /// each of its three corners with `accumulate`, starting from `zero`;
    /// the sum of each vertex is then normalised with `normalize`.
    pub fn normals<
        S: Copy,
        F: Fn([S; 3], [S; 3], [S; 3]) -> [S; 3],
        A: Fn([S; 3], [S; 3]) -> [S; 3],
        Z: Fn([S; 3]) -> [S; 3],
    >(
        &self,
        vertices: &Vec<[S; 3]>,
        zero: [S; 3],
        face_normal: F,
        accumulate: A,
        normalize: Z,
    ) -> (normals: Vec<[S; 3]>)
        requires
            self.wf(),
            vertices@.len() == self@.parents.len(),
            forall|a: [S; 3], b: [S; 3], c: [S; 3]| call_requires(face_normal, (a, b, c)),
            forall|a: [S; 3], b: [S; 3]| call_requires(accumulate, (a, b)),
            forall|a: [S; 3]| call_requires(normalize, (a,)),
        ensures
            shaded(self@.faces, vertices@, normals@, zero, face_normal, accumulate, normalize),
    {
        proof {
            lemma_geodesic_shape(self.subdiv as nat);
        }
        let mut sums: Vec<[S; 3]> = Vec::new();
        let mut v: usize = 0;
        while v < vertices.len()
            invariant
                v <= vertices@.len(),
                sums@.len() == v,
                forall|w: int| 0 <= w < v ==> #[trigger] sums@[w] == zero,
            decreases vertices@.len() - v,
        {
            sums.push(zero);
            v += 1;
        }
        let mut i: usize = 0;
        while i < self.indices.len()
            invariant
                i <= self.indices@.len(),
                self@.faces == self.indices@,
                faces_in_range(self@.faces, self@.parents.len()),
                vertices@.len() == self@.parents.len(),
                sums@.len() == vertices@.len(),
                forall|a: [S; 3], b: [S; 3], c: [S; 3]| call_requires(face_normal, (a, b, c)),
                forall|a: [S; 3], b: [S; 3]| call_requires(accumulate, (a, b)),
                forall|w: int|
                    0 <= w < sums@.len() ==> sums_to(
                        self@.faces,
                        vertices@,
                        incident(self@.faces, w, (3 * i) as nat),
                        zero,
                        #[trigger] sums@[w],
                        face_normal,
                        accumulate,
                    ),
            decreases self.indices@.len() - i,
        {
            let f = self.indices[i];
            let n = face_normal(vertices[f.0], vertices[f.1], vertices[f.2]);
            let ghost s0 = sums@;
            let first = accumulate(sums[f.0], n);
            sums[f.0] = first;
            proof {
                lemma_sum_grows(self@.faces, vertices@, s0, sums@, zero, n, face_normal, accumulate, (3 * i) as nat);
            }
            let ghost s1 = sums@;
            let second = accumulate(sums[f.1], n);
            sums[f.1] = second;
            proof {
                lemma_sum_grows(self@.faces, vertices@, s1, sums@, zero, n, face_normal, accumulate, (3 * i + 1) as nat);
            }
            let ghost s2 = sums@;
            let third = accumulate(sums[f.2], n);
            sums[f.2] = third;
            proof {
                lemma_sum_grows(self@.faces, vertices@, s2, sums@, zero, n, face_normal, accumulate, (3 * i + 2) as nat);
            }
            i += 1;
        }
        let mut normals: Vec<[S; 3]> = Vec::new();
        let mut v: usize = 0;
        while v < sums.len()
            invariant
                v <= sums@.len(),
                sums@.len() == vertices@.len(),
                self@.faces.len() == self.indices@.len(),
                i == self.indices@.len(),
                forall|a: [S; 3]| call_requires(normalize, (a,)),
                forall|w: int|
                    0 <= w < sums@.len() ==> sums_to(
                        self@.faces,
                        vertices@,
                        incident(self@.faces, w, (3 * i) as nat),
                        zero,
                        #[trigger] sums@[w],
                        face_normal,
                        accumulate,
                    ),
                normals@.len() == v,
                forall|w: int|
                    0 <= w < v ==> #[trigger] shaded_at(
                        self@.faces,
                        vertices@,
                        normals@,
                        zero,
                        face_normal,
                        accumulate,
                        normalize,
                        w,
                    ),
            decreases sums@.len() - v,
        {
            let ghost earlier = normals@;
            let normal = normalize(sums[v]);
            normals.push(normal);
            proof {
                assert forall|w: int| 0 <= w < v + 1 implies #[trigger] shaded_at(
                    self@.faces,
                    vertices@,
                    normals@,
                    zero,
                    face_normal,
                    accumulate,
                    normalize,
                    w,
                ) by {
                    if w < v {
                        assert(shaded_at(self@.faces, vertices@, earlier, zero, face_normal, accumulate, normalize, w));
                        let sum = choose|sum: [S; 3]|
                            sums_to(
                                self@.faces,
                                vertices@,
                                incident(self@.faces, w, 3 * self@.faces.len()),
                                zero,
                                sum,
                                face_normal,
                                accumulate,
                            ) && #[trigger] call_ensures(normalize, (sum,), earlier[w]);
                        assert(call_ensures(normalize, (sum,), normals@[w]));
                    } else {
                        assert(call_ensures(normalize, (sums@[v as int],), normals@[w]));
                    }
                }
            }
            v += 1;
        }
        normals
    }
}

/// Adding the normal `n` of the face of corner `c` into the sum of the
/// vertex at that corner keeps every sum the sum over the faces that meet
/// in its vertex, one corner further on.
proof fn lemma_sum_grows<S, F: Fn([S; 3], [S; 3], [S; 3]) -> [S; 3], A: Fn([S; 3], [S; 3]) -> [S; 3]>(
    faces: Seq<Face>,
    vertices: Seq<[S; 3]>,
    before: Seq<[S; 3]>,
    after: Seq<[S; 3]>,
    zero: [S; 3],
    n: [S; 3],
    face_normal: F,
    accumulate: A,
    c: nat,
)
    requires
        c < 3 * faces.len(),
        faces.len() <= usize::MAX,
        faces_in_range(faces, vertices.len()),
        corner(faces[c as int / 3], c as int % 3) < before.len(),
        after.len() == before.len(),
        call_ensures(
            face_normal,
            (
                vertices[faces[c as int / 3].0 as int],
                vertices[faces[c as int / 3].1 as int],
                vertices[faces[c as int / 3].2 as int],
            ),
            n,
        ),
        call_ensures(
            accumulate,
            (before[corner(faces[c as int / 3], c as int % 3) as int], n),
            after[corner(faces[c as int / 3], c as int % 3) as int],
        ),
        forall|w: int|
            0 <= w < before.len() && w != corner(faces[c as int / 3], c as int % 3) ==> after[w] == before[w],
        forall|w: int|
            0 <= w < before.len() ==> sums_to(
                faces,
                vertices,
                incident(faces, w, c),
                zero,
                #[trigger] before[w],
                face_normal,
                accumulate,
            ),
    ensures
        forall|w: int|
            0 <= w < after.len() ==> sums_to(
                faces,
                vertices,
                incident(faces, w, (c + 1) as nat),
                zero,
                #[trigger] after[w],
                face_normal,
                accumulate,
            ),
{
    let at = corner(faces[c as int / 3], c as int % 3) as int;
    assert forall|w: int| 0 <= w < after.len() implies sums_to(
        faces,
        vertices,
        incident(faces, w, (c + 1) as nat),
        zero,
        #[trigger] after[w],
        face_normal,
        accumulate,
    ) by {
        let next = (c + 1) as nat;
        let face = c as int / 3;
        assert((next - 1) as nat == c);
        assert(sums_to(faces, vertices, incident(faces, w, c), zero, before[w], face_normal, accumulate));
        if w == at {
            let list = incident(faces, w, next);
            assert(list == incident(faces, w, c).push(face as usize));
            assert(list.drop_last() =~= incident(faces, w, c));
            assert(list.last() as int == face);
            assert(sums_to(faces, vertices, list.drop_last(), zero, before[w], face_normal, accumulate));
            assert(call_ensures(accumulate, (before[w], n), after[w]));
            assert(sums_to(faces, vertices, list, zero, after[w], face_normal, accumulate));
        } else {
            assert(incident(faces, w, next) == incident(faces, w, c));
        }
    }
}

/// Unrolling repeats and loses nothing: the buffer holds three components
/// for each corner of each face, and the three of corner `i` are those of
/// the vertex at that corner. A property that every vertex has is therefore
/// one that the triple at every corner of the buffer has.
pub proof fn lemma_unrolled_keep<S>(faces: Seq<Face>, per_vertex: Seq<[S; 3]>, unit: spec_fn([S; 3]) -> bool)
    requires
        faces_in_range(faces, per_vertex.len()),
        forall|v: int| 0 <= v < per_vertex.len() ==> unit(#[trigger] per_vertex[v]),
    ensures
        unrolled(faces, per_vertex).len() == 9 * faces.len(),
        forall|i: int|
            0 <= i < 3 * faces.len() ==> {
                let triple = per_vertex[corner(faces[i / 3], i % 3) as int];
                &&& unit(triple)
                &&& #[trigger] unrolled(faces, per_vertex)[3 * i] == triple[0]
                &&& unrolled(faces, per_vertex)[3 * i + 1] == triple[1]
                &&& unrolled(faces, per_vertex)[3 * i + 2] == triple[2]
            },
{
    assert forall|i: int| 0 <= i < 3 * faces.len() implies {
        let triple = per_vertex[corner(faces[i / 3], i % 3) as int];
        &&& unit(triple)
        &&& #[trigger] unrolled(faces, per_vertex)[3 * i] == triple[0]
        &&& unrolled(faces, per_vertex)[3 * i + 1] == triple[1]
        &&& unrolled(faces, per_vertex)[3 * i + 2] == triple[2]
    } by {
        let f = faces[i / 3];
        assert(f.0 < per_vertex.len() && f.1 < per_vertex.len() && f.2 < per_vertex.len());
    }
}

/// Positions on the sphere, unrolled: where the twelve vertices of the
/// icosahedron have a property that `midpoint` gives to every middle it
/// makes, the position at every corner of the unrolled buffer has it.
pub proof fn lemma_unrolled_positions_keep<S, M: Fn([S; 3], [S; 3]) -> [S; 3]>(
    parents: Seq<Edge>,
    faces: Seq<Face>,
    base: Seq<[S; 3]>,
    vertices: Seq<[S; 3]>,
    midpoint: M,
    unit: spec_fn([S; 3]) -> bool,
)
    requires
        placed(parents, base, vertices, midpoint),
        faces_in_range(faces, parents.len()),
        forall|v: int| 0 <= v < base.len() ==> unit(#[trigger] base[v]),
        forall|a: [S; 3], b: [S; 3], middle: [S; 3]| #[trigger]
            call_ensures(midpoint, (a, b), middle) ==> unit(middle),
    ensures
        unrolled(faces, vertices).len() == 9 * faces.len(),
        forall|i: int|
            0 <= i < 3 * faces.len() ==> {
                let position = vertices[corner(faces[i / 3], i % 3) as int];
                &&& unit(position)
                &&& #[trigger] unrolled(faces, vertices)[3 * i] == position[0]
                &&& unrolled(faces, vertices)[3 * i + 1] == position[1]
                &&& unrolled(faces, vertices)[3 * i + 2] == position[2]
            },
{
    lemma_positions_keep(parents, base, vertices, midpoint, unit);
    lemma_unrolled_keep(faces, vertices, unit);
}

/// Vertices on the sphere: where the twelve vertices of the icosahedron
/// have a property that `midpoint` gives to every middle it makes, every
/// vertex of the mesh has it.
pub proof fn lemma_positions_keep<S, M: Fn([S; 3], [S; 3]) -> [S; 3]>(
    parents: Seq<Edge>,
    base: Seq<[S; 3]>,
    vertices: Seq<[S; 3]>,
    midpoint: M,
    unit: spec_fn([S; 3]) -> bool,
)
    requires
        placed(parents, base, vertices, midpoint),
        forall|v: int| 0 <= v < base.len() ==> unit(#[trigger] base[v]),
        forall|a: [S; 3], b: [S; 3], middle: [S; 3]| #[trigger]
            call_ensures(midpoint, (a, b), middle) ==> unit(middle),
    ensures
        forall|v: int| 0 <= v < vertices.len() ==> unit(#[trigger] vertices[v]),
{
    assert forall|v: int| 0 <= v < vertices.len() implies unit(#[trigger] vertices[v]) by {
        assert(placed_at(parents, base, vertices, midpoint, v));
    }
}

/// Normals of unit length: where `normalize` gives a property to whatever it
/// makes, every normal of the mesh has it, and so has the normal at every
/// corner of the unrolled buffer.
pub proof fn lemma_normals_keep<
    S,
    F: Fn([S; 3], [S; 3], [S; 3]) -> [S; 3],
    A: Fn([S; 3], [S; 3]) -> [S; 3],
    Z: Fn([S; 3]) -> [S; 3],
>(
    faces: Seq<Face>,
    vertices: Seq<[S; 3]>,
    normals: Seq<[S; 3]>,
    zero: [S; 3],
    face_normal: F,
    accumulate: A,
    normalize: Z,
    unit: spec_fn([S; 3]) -> bool,
)
    requires
        shaded(faces, vertices, normals, zero, face_normal, accumulate, normalize),
        faces_in_range(faces, normals.len()),
        forall|sum: [S; 3], normal: [S; 3]| #[trigger] call_ensures(normalize, (sum,), normal) ==> unit(normal),
    ensures
        forall|v: int| 0 <= v < normals.len() ==> unit(#[trigger] normals[v]),
        unrolled(faces, normals).len() == 9 * faces.len(),
        forall|i: int|
            0 <= i < 3 * faces.len() ==> {
                let normal = normals[corner(faces[i / 3], i % 3) as int];
                &&& unit(normal)
                &&& #[trigger] unrolled(faces, normals)[3 * i] == normal[0]
                &&& unrolled(faces, normals)[3 * i + 1] == normal[1]
                &&& unrolled(faces, normals)[3 * i + 2] == normal[2]
            },
{
    assert forall|v: int| 0 <= v < normals.len() implies unit(#[trigger] normals[v]) by {
        assert(shaded_at(faces, vertices, normals, zero, face_normal, accumulate, normalize, v));
    }
    lemma_unrolled_keep(faces, normals, unit);
}

} // verus!
