use orbital_render::icosphere::{subdivide, IcoSphere};

#[test]
fn level_zero_is_the_icosahedron() {
    let s = IcoSphere::new(0);
    assert_eq!(s.n_face, 20);
    assert_eq!(s.n_vert, 60);
    assert_eq!(s.vertex_count(), 12);
    assert_eq!(s.face(0), Some((0, 11, 5)));
    assert_eq!(s.face(19), Some((9, 8, 1)));
    assert_eq!(s.face(20), None);
    assert_eq!(s.parents_of(3), None);
}

#[test]
fn one_round_shares_midpoints() {
    let s = IcoSphere::new(1);
    assert_eq!(s.n_face, 80);
    assert_eq!(s.n_vert, 240);
    assert_eq!(s.vertex_count(), 42);
    assert_eq!(s.parents_of(12), Some((0, 11)));
    assert_eq!(s.parents_of(13), Some((11, 5)));
    assert_eq!(s.parents_of(14), Some((5, 0)));
    assert_eq!(s.face(0), Some((0, 12, 14)));
    assert_eq!(s.face(1), Some((11, 13, 12)));
    assert_eq!(s.face(2), Some((5, 14, 13)));
    assert_eq!(s.face(3), Some((12, 13, 14)));
    assert_eq!(s.face(4), Some((0, 14, 16)));
}

#[test]
fn subdivide_two_triangles_sharing_an_edge() {
    let parents = vec![(0, 0), (1, 1), (2, 2), (3, 3)];
    let faces = vec![(0, 1, 2), (2, 1, 3)];
    let (p, f) = subdivide(parents, faces);
    assert_eq!(p.len(), 4 + 5);
    assert_eq!(&p[4..], &[(0, 1), (1, 2), (2, 0), (1, 3), (3, 2)]);
    assert_eq!(f.len(), 8);
    assert_eq!(f[4], (2, 5, 8));
    assert_eq!(f[7], (5, 7, 8));
}

#[test]
fn vertex_buf_unrolls_corners() {
    let s = IcoSphere::new(0);
    let verts: Vec<[f32; 3]> = (0..12).map(|v| [v as f32, 0.5, -(v as f32)]).collect();
    let buf = s.vertex_buf(&verts);
    assert_eq!(buf.len(), 180);
    assert_eq!(&buf[0..9], &[0.0, 0.5, 0.0, 11.0, 0.5, -11.0, 5.0, 0.5, -5.0]);
}

#[test]
fn face_count_is_twenty_times_four_to_the_level() {
    let mut expected = 20;
    for k in 0..4 {
        let s = IcoSphere::new(k);
        assert_eq!(s.n_face, expected);
        assert_eq!(s.n_vert, 3 * expected);
        assert_eq!(s.subdiv, k);
        expected *= 4;
    }
}

#[test]
fn vertex_count_follows_the_closed_surface() {
    assert_eq!(IcoSphere::new(2).vertex_count(), 162);
    assert_eq!(IcoSphere::new(3).vertex_count(), 642);
}

#[test]
fn no_edge_gets_two_midpoints() {
    let s = IcoSphere::new(2);
    let mut seen = std::collections::HashSet::new();
    for v in 12..s.vertex_count() {
        let (a, b) = s.parents_of(v).unwrap();
        assert!(a < v && b < v);
        let key = if a < b { (a, b) } else { (b, a) };
        assert!(seen.insert((key, v >= 42)), "edge {:?} has two midpoints", key);
    }
}

#[test]
fn every_face_lies_within_the_vertices() {
    let s = IcoSphere::new(2);
    let n = s.vertex_count();
    for i in 0..s.n_face {
        let (a, b, c) = s.face(i).unwrap();
        assert!(a < n && b < n && c < n);
        assert!(a != b && b != c && c != a);
    }
}

#[test]
fn subdivide_of_nothing_is_nothing() {
    let (p, f) = subdivide(vec![(0, 0)], Vec::new());
    assert_eq!(p, vec![(0, 0)]);
    assert!(f.is_empty());
}

#[test]
fn normal_buf_follows_the_corner_order_of_vertex_buf() {
    let s = IcoSphere::new(1);
    let data: Vec<[f32; 3]> = (0..42).map(|v| [v as f32, 100.0 + v as f32, 200.0 + v as f32]).collect();
    let verts = s.vertex_buf(&data);
    let norms = s.normal_buf(&data);
    assert_eq!(verts, norms);
    assert_eq!(verts.len(), 9 * 80);
    // face 3 is the centre triangle of the first face: (12, 13, 14)
    assert_eq!(&verts[27..36], &[12.0, 112.0, 212.0, 13.0, 113.0, 213.0, 14.0, 114.0, 214.0]);
}

fn count_faces(s: &IcoSphere) -> Vec<[u64; 3]> {
    // every face counts one, and brings the smallest of its corners along
    let marks: Vec<[u64; 3]> = (0..s.vertex_count() as u64).map(|v| [v, 0, 0]).collect();
    s.normals(
        &marks,
        [0, 0, 0],
        |a, b, c| [1, a[0].min(b[0]).min(c[0]), 0],
        |sum, n| [sum[0] + n[0], sum[1] * 100 + n[1], 0],
        |sum| [sum[0], sum[1], 7],
    )
}

#[test]
fn five_faces_meet_in_each_vertex_of_the_icosahedron() {
    let counted = count_faces(&IcoSphere::new(0));
    assert_eq!(counted.len(), 12);
    assert!(counted.iter().all(|n| n[0] == 5 && n[2] == 7));
    // vertex 11 lies in the faces 0, 4, 6, 7 and 16, whose smallest corners are 0, 0, 4, 2, 2
    assert_eq!(counted[11][1], 4_02_02);
    // vertex 3 lies in the faces 10 to 14, whose smallest corners are 3, 2, 2, 3, 3
    assert_eq!(counted[3][1], 3_02_02_03_03);
}

#[test]
fn six_faces_meet_in_each_midpoint() {
    let counted = count_faces(&IcoSphere::new(1));
    assert_eq!(counted.len(), 42);
    for v in 0..42 {
        assert_eq!(counted[v][0], if v < 12 { 5 } else { 6 });
    }
    assert_eq!(counted.iter().map(|n| n[0]).sum::<u64>(), 240);
}

#[test]
fn positions_place_each_midpoint_between_its_parents() {
    let s = IcoSphere::new(1);
    let base: Vec<[i64; 3]> = (0..12).map(|v| [v, 100 * v, 1]).collect();
    let placed = s.positions(&base, |a, b| [a[0] + b[0], a[1] + b[1], a[2] + b[2]]);
    assert_eq!(placed.len(), 42);
    assert_eq!(&placed[..12], &base[..]);
    // vertex 12 halves the edge from 0 to 11, vertex 13 the edge from 11 to 5
    assert_eq!(placed[12], [11, 1100, 2]);
    assert_eq!(placed[13], [16, 1600, 2]);
    let deeper = IcoSphere::new(2).positions(&base, |a, b| [a[0] + b[0], a[1] + b[1], a[2] + b[2]]);
    assert_eq!(&deeper[..42], &placed[..]);
    assert!(deeper[42..].iter().all(|p| p[2] >= 2 && p[2] <= 4));
}

fn normalized(v: [f32; 3]) -> [f32; 3] {
    let len = (v[0] * v[0] + v[1] * v[1] + v[2] * v[2]).sqrt();
    [v[0] / len, v[1] / len, v[2] / len]
}

fn sphere_positions(s: &IcoSphere) -> Vec<[f32; 3]> {
    let t: f32 = 0.85065080835204;
    let x: f32 = 0.52573111211913;
    let base = vec![
        [-x, t, 0.], [x, t, 0.], [-x, -t, 0.], [x, -t, 0.],
        [0., -x, t], [0., x, t], [0., -x, -t], [0., x, -t],
        [t, 0., -x], [t, 0., x], [-t, 0., -x], [-t, 0., x],
    ];
    s.positions(&base, |p, q| normalized([p[0] + q[0], p[1] + q[1], p[2] + q[2]]))
}

#[test]
fn vertices_lie_on_the_unit_sphere() {
    let s = IcoSphere::new(3);
    for p in sphere_positions(&s) {
        let len = (p[0] * p[0] + p[1] * p[1] + p[2] * p[2]).sqrt();
        assert!((len - 1.0).abs() < 1e-5);
    }
}

#[test]
fn unrolled_normals_have_unit_length_and_point_outwards() {
    let s = IcoSphere::new(2);
    let vertices = sphere_positions(&s);
    let normals = s.normals(
        &vertices,
        [0.0; 3],
        |p, q, r| {
            let u = [q[0] - p[0], q[1] - p[1], q[2] - p[2]];
            let w = [r[0] - p[0], r[1] - p[1], r[2] - p[2]];
            [u[1] * w[2] - u[2] * w[1], u[2] * w[0] - u[0] * w[2], u[0] * w[1] - u[1] * w[0]]
        },
        |sum, n| [sum[0] + n[0], sum[1] + n[1], sum[2] + n[2]],
        normalized,
    );
    let buf = s.normal_buf(&normals);
    let pos = s.vertex_buf(&vertices);
    assert_eq!(buf.len(), 3 * s.n_vert);
    for (n, p) in buf.chunks(3).zip(pos.chunks(3)) {
        let len = (n[0] * n[0] + n[1] * n[1] + n[2] * n[2]).sqrt();
        assert!((len - 1.0).abs() < 1e-5);
        // on a sphere about the origin the smooth normal of a vertex is its direction
        assert!(n[0] * p[0] + n[1] * p[1] + n[2] * p[2] > 0.99);
    }
}

#[test]
fn unrolled_positions_hold_each_vertex_once_for_each_face_that_meets_it() {
    for (k, vertices) in [(0usize, 12usize), (1, 42), (2, 162), (3, 642), (4, 2562)] {
        let s = IcoSphere::new(k);
        assert_eq!(s.vertex_count(), vertices);
        let buf = s.vertex_buf(&sphere_positions(&s));
        assert_eq!(buf.len(), 3 * s.n_vert);
        let mut distinct: Vec<[u32; 3]> =
            buf.chunks(3).map(|p| [p[0].to_bits(), p[1].to_bits(), p[2].to_bits()]).collect();
        distinct.sort();
        distinct.dedup();
        assert_eq!(distinct.len(), vertices);
    }
}

#[test]
fn unrolled_normals_hold_no_nan() {
    let s = IcoSphere::new(1);
    let vertices = sphere_positions(&s);
    let normals = s.normals(
        &vertices,
        [0.0; 3],
        |p, q, r| {
            let u = [q[0] - p[0], q[1] - p[1], q[2] - p[2]];
            let w = [r[0] - p[0], r[1] - p[1], r[2] - p[2]];
            [u[1] * w[2] - u[2] * w[1], u[2] * w[0] - u[0] * w[2], u[0] * w[1] - u[1] * w[0]]
        },
        |sum, n| [sum[0] + n[0], sum[1] + n[1], sum[2] + n[2]],
        normalized,
    );
    let buf = s.normal_buf(&normals);
    assert_eq!(buf.len(), 3 * s.n_vert);
    assert!(buf.iter().all(|c| c.is_finite()));
}

#[test]
fn the_surface_is_closed_and_wound_one_way() {
    for k in 0..3 {
        let s = IcoSphere::new(k);
        let mut sides = std::collections::HashMap::new();
        for i in 0..s.n_face {
            let (a, b, c) = s.face(i).unwrap();
            for side in [(a, b), (b, c), (c, a)] {
                // no two faces run along a side the same way
                assert_eq!(sides.insert(side, i), None);
            }
        }
        assert_eq!(sides.len(), 3 * s.n_face);
        for ((a, b), i) in &sides {
            // across every side lies another face, which runs along it the other way
            let other = sides.get(&(*b, *a)).expect("a face across the side");
            assert_ne!(other, i);
        }
        // edges, faces and vertices of a sphere
        assert_eq!(s.vertex_count() + s.n_face, sides.len() / 2 + 2);
    }
}
