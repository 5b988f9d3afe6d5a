use vstd::prelude::*;
use std::collections::{BTreeMap, HashMap};
use crate::key_order::{lemma_u64_keys_ordered, sorted_keys};

verus! {

/// An undirected mesh edge between two distinct vertices, smaller first.
#[derive(Clone, Copy, Debug, PartialEq, Eq, Structural)]
pub struct EdgeKey {
    pub a: u32,
    pub b: u32,
}

/// The edge joining two vertices, independent of their order.
pub open spec fn edge_between(x: u32, y: u32) -> EdgeKey {
    if x < y {
        EdgeKey { a: x, b: y }
    } else {
        EdgeKey { a: y, b: x }
    }
}

/// Edge order: by first vertex, then by second.
pub open spec fn edge_lt(x: EdgeKey, y: EdgeKey) -> bool {
    x.a < y.a || (x.a == y.a && x.b < y.b)
}

pub open spec fn edges_sorted(s: Seq<EdgeKey>) -> bool {
    forall|i: int, j: int| 0 <= i < j < s.len() ==> edge_lt(#[trigger] s[i], #[trigger] s[j])
}

impl EdgeKey {
    pub open spec fn well_formed(self) -> bool {
        self.a < self.b
    }

    /// The edge between two vertices; `None` for a vertex and itself.
    pub fn new(a: u32, b: u32) -> (r: Option<EdgeKey>)
        ensures
            r == if a == b { None::<EdgeKey> } else { Some(edge_between(a, b)) },
    {
        if a == b {
            return None;
        }
        Some(
            if a < b {
                EdgeKey { a, b }
            } else {
                EdgeKey { a: b, b: a }
            },
        )
    }

    pub fn as_pair(self) -> (pair: [u32; 2])
        ensures
            pair@ == seq![self.a, self.b],
    {
        let pair = [self.a, self.b];
        assert(pair@ =~= seq![self.a, self.b]);
        pair
    }
}

/// The same edge results from both orders of its endpoints.
pub proof fn lemma_edge_between_symmetric(x: u32, y: u32)
    requires
        x != y,
    ensures
        edge_between(x, y) == edge_between(y, x),
        edge_between(x, y).well_formed(),
{
}

pub fn edge_less(x: EdgeKey, y: EdgeKey) -> (r: bool)
    ensures
        r == edge_lt(x, y),
{
    x.a < y.a || (x.a == y.a && x.b < y.b)
}

/// The first three indices of a triangle's index slice.
pub fn triangle_indices(triangle: &[u32]) -> (r: Option<[u32; 3]>)
    ensures
        r matches Some(t) ==> triangle.len() >= 3 && t@ == triangle@.subrange(0, 3),
        r is None <==> triangle.len() < 3,
{
    if triangle.len() < 3 {
        return None;
    }
    let t = [triangle[0], triangle[1], triangle[2]];
    assert(t@ =~= triangle@.subrange(0, 3));
    Some(t)
}

/// The distinct edges of a triangle whose corners are `x`, `y` and `z`.
pub open spec fn triangle_edge_set(x: u32, y: u32, z: u32) -> Set<EdgeKey> {
    Set::new(
        |e: EdgeKey|
            (x != y && e == edge_between(x, y)) || (y != z && e == edge_between(y, z)) || (z != x
                && e == edge_between(z, x)),
    )
}

fn insert_sorted_unique(edges: &mut Vec<EdgeKey>, e: EdgeKey)
    requires
        edges_sorted(old(edges)@),
    ensures
        edges_sorted(final(edges)@),
        final(edges)@.to_set() == old(edges)@.to_set().insert(e),
        final(edges)@.len() <= old(edges)@.len() + 1,
{
    let mut p: usize = 0;
    while p < edges.len() && edge_less(edges[p], e)
        invariant
            p <= edges.len(),
            forall|i: int| 0 <= i < p ==> edge_lt(#[trigger] edges@[i], e),
        decreases edges.len() - p,
    {
        p += 1;
    }
    if p < edges.len() && edges[p] == e {
        assert(edges@.to_set() =~= edges@.to_set().insert(e)) by {
            assert(edges@.contains(e)) by {
                assert(edges@[p as int] == e);
            }
        }
        return;
    }
    let ghost before = edges@;
    edges.insert(p, e);
    proof {
        assert forall|i: int, j: int| 0 <= i < j < edges@.len() implies edge_lt(
            #[trigger] edges@[i],
            #[trigger] edges@[j],
        ) by {
            if j < p {
            } else if j == p {
            } else if i < p {
                assert(edges@[j] == before[j - 1]);
                if p < before.len() {
                    assert(!edge_lt(before[p as int], e));
                    assert(before[p as int] != e);
                    if j - 1 > p {
                        assert(edge_lt(before[p as int], before[j - 1]));
                    }
                }
            } else if i == p {
                assert(edges@[j] == before[j - 1]);
                assert(!edge_lt(before[p as int], e));
                assert(before[p as int] != e);
                if j - 1 > p {
                    assert(edge_lt(before[p as int], before[j - 1]));
                }
            } else {
                assert(edges@[i] == before[i - 1]);
                assert(edges@[j] == before[j - 1]);
            }
        }
        assert(edges@.to_set() =~= before.to_set().insert(e)) by {
            assert forall|x: EdgeKey| edges@.to_set().contains(x) implies before.to_set().insert(
                e,
            ).contains(x) by {
                let k = choose|k: int| 0 <= k < edges@.len() && edges@[k] == x;
                if k < p {
                    assert(before[k] == x);
                } else if k > p {
                    assert(before[k - 1] == x);
                }
            }
            assert forall|x: EdgeKey| before.to_set().insert(e).contains(x) implies edges@.to_set().contains(
                x,
            ) by {
                if x == e {
                    assert(edges@[p as int] == e);
                } else {
                    let k = choose|k: int| 0 <= k < before.len() && before[k] == x;
                    if k < p {
                        assert(edges@[k] == x);
                    } else {
                        assert(edges@[k + 1] == x);
                    }
                }
            }
        }
    }
}

/// The distinct edges of triangle `indices` after mapping each corner to its
/// canonical vertex, in edge order; `None` when a corner has no canonical
/// vertex.
pub fn triangle_edges(canonical_vertices: &[u32], indices: [u32; 3]) -> (r: Option<Vec<EdgeKey>>)
    ensures
        r is None <==> (indices[0] >= canonical_vertices.len() || indices[1]
            >= canonical_vertices.len() || indices[2] >= canonical_vertices.len()),
        r matches Some(edges) ==> {
            &&& edges_sorted(edges@)
            &&& edges@.to_set() == triangle_edge_set(
                canonical_vertices@[indices[0] as int],
                canonical_vertices@[indices[1] as int],
                canonical_vertices@[indices[2] as int],
            )
            &&& edges@.no_duplicates()
        },
{
    let i0 = indices[0] as usize;
    let i1 = indices[1] as usize;
    let i2 = indices[2] as usize;
    if i0 >= canonical_vertices.len() || i1 >= canonical_vertices.len() || i2
        >= canonical_vertices.len() {
        return None;
    }
    let x = canonical_vertices[i0];
    let y = canonical_vertices[i1];
    let z = canonical_vertices[i2];
    let mut edges: Vec<EdgeKey> = Vec::new();
    assert(edges@.to_set() =~= Set::<EdgeKey>::empty());
    let ghost mut expected = Set::<EdgeKey>::empty();
    if let Some(e) = EdgeKey::new(x, y) {
        insert_sorted_unique(&mut edges, e);
        proof {
            expected = expected.insert(e);
        }
    }
    if let Some(e) = EdgeKey::new(y, z) {
        insert_sorted_unique(&mut edges, e);
        proof {
            expected = expected.insert(e);
        }
    }
    if let Some(e) = EdgeKey::new(z, x) {
        insert_sorted_unique(&mut edges, e);
        proof {
            expected = expected.insert(e);
        }
    }
    assert(expected =~= triangle_edge_set(x, y, z));
    assert(edges@.no_duplicates()) by {
        assert forall|i: int, j: int| 0 <= i < edges@.len() && 0 <= j < edges@.len() && i != j implies edges@[i]
            != edges@[j] by {
            if i < j {
                assert(edge_lt(edges@[i], edges@[j]));
            } else {
                assert(edge_lt(edges@[j], edges@[i]));
            }
        }
    }
    Some(edges)
}

/// Two position keys name the same point.
pub open spec fn same_position(p: [u32; 3], q: [u32; 3]) -> bool {
    p[0] == q[0] && p[1] == q[1] && p[2] == q[2]
}

/// `c` is the first vertex whose position key equals that of vertex `i`.
pub open spec fn first_vertex_at(keys: Seq<[u32; 3]>, i: int, c: int) -> bool {
    &&& 0 <= c <= i
    &&& same_position(keys[c], keys[i])
    &&& forall|j: int| 0 <= j < c ==> !same_position(#[trigger] keys[j], keys[i])
}

/// Welding is stable: the first vertex at a position is its own first
/// vertex, and two vertices at one position share their first vertex.
pub proof fn lemma_first_vertex_is_stable(keys: Seq<[u32; 3]>, i: int, c: int, j: int, d: int)
    requires
        0 <= i < keys.len(),
        0 <= j < keys.len(),
        first_vertex_at(keys, i, c),
        first_vertex_at(keys, j, d),
    ensures
        first_vertex_at(keys, c, c),
        same_position(keys[i], keys[j]) ==> c == d,
{
    if same_position(keys[i], keys[j]) {
        if c < d {
            assert(!same_position(keys[c], keys[j]));
        } else if d < c {
            assert(!same_position(keys[d], keys[i]));
        }
    }
}

/// A position key packed into one integer, first component highest.
pub open spec fn position_code(p: [u32; 3]) -> int {
    p[0] * 0x1_0000_0000_0000_0000 + p[1] * 0x1_0000_0000 + p[2]
}

proof fn lemma_position_code_injective(p: [u32; 3], q: [u32; 3])
    ensures
        position_code(p) == position_code(q) <==> same_position(p, q),
        0 <= position_code(p) < 0x1_0000_0000_0000_0000_0000_0000,
        position_code(p) as u128 == position_code(p),
{
}

fn pack_position(p: [u32; 3]) -> (code: u128)
    ensures
        code == position_code(p),
{
    (p[0] as u128) * 0x1_0000_0000_0000_0000u128 + (p[1] as u128) * 0x1_0000_0000u128
        + (p[2] as u128)
}

/// For each vertex, the first vertex with the same position key, so that
/// coincident vertices share one identity when edges are matched.
pub fn canonical_vertices_by_position(position_keys: &[[u32; 3]]) -> (canonical: Vec<u32>)
    requires
        position_keys.len() <= u32::MAX + 1,
    ensures
        canonical@.len() == position_keys@.len(),
        forall|i: int|
            0 <= i < canonical@.len() ==> first_vertex_at(
                position_keys@,
                i,
                #[trigger] canonical@[i] as int,
            ),
{
    broadcast use vstd::std_specs::hash::group_hash_axioms;

    let mut first_by_position: HashMap<u128, u32> = HashMap::new();
    let mut canonical: Vec<u32> = Vec::new();
    let mut index: usize = 0;
    while index < position_keys.len()
        invariant
            index <= position_keys.len() <= u32::MAX + 1,
            canonical@.len() == index,
            forall|i: int|
                0 <= i < index ==> first_vertex_at(
                    position_keys@,
                    i,
                    #[trigger] canonical@[i] as int,
                ),
            forall|i: int|
                0 <= i < index ==> {
                    &&& #[trigger] first_by_position@.contains_key(
                        position_code(position_keys@[i]) as u128,
                    )
                    &&& first_by_position@[position_code(position_keys@[i]) as u128]
                        == canonical@[i]
                },
            forall|k: u128|
                #[trigger] first_by_position@.contains_key(k) ==> exists|i: int|
                    0 <= i < index && position_code(#[trigger] position_keys@[i]) == k,
        decreases position_keys.len() - index,
    {
        let key = position_keys[index];
        let code = pack_position(key);
        let ghost before = first_by_position@;
        match first_by_position.get(&code) {
            Some(first) => {
                let first = *first;
                proof {
                    let i = choose|i: int|
                        0 <= i < index && position_code(#[trigger] position_keys@[i]) == code;
                    lemma_position_code_injective(position_keys@[i], key);
                    assert(first_by_position@.contains_key(
                        position_code(position_keys@[i]) as u128,
                    ));
                    assert(first == canonical@[i]);
                    assert forall|j: int| 0 <= j < first implies !same_position(
                        #[trigger] position_keys@[j],
                        key,
                    ) by {
                        assert(!same_position(position_keys@[j], position_keys@[i]));
                    }
                }
                canonical.push(first);
            },
            None => {
                proof {
                    assert forall|j: int| 0 <= j < index implies !same_position(
                        #[trigger] position_keys@[j],
                        key,
                    ) by {
                        lemma_position_code_injective(position_keys@[j], key);
                        assert(first_by_position@.contains_key(
                            position_code(position_keys@[j]) as u128,
                        ));
                    }
                }
                first_by_position.insert(code, index as u32);
                canonical.push(index as u32);
            },
        }
        index += 1;
        proof {
            assert forall|i: int| 0 <= i < index implies {
                &&& #[trigger] first_by_position@.contains_key(
                    position_code(position_keys@[i]) as u128,
                )
                &&& first_by_position@[position_code(position_keys@[i]) as u128]
                    == canonical@[i]
            } by {
                lemma_position_code_injective(position_keys@[i], key);
                if i < index - 1 {
                    assert(before.contains_key(position_code(position_keys@[i]) as u128));
                    if position_code(position_keys@[i]) == code {
                        assert(first_vertex_at(position_keys@, i, canonical@[i] as int));
                        assert(first_vertex_at(position_keys@, index - 1, canonical@[index - 1] as int));
                    }
                }
            }
            assert forall|k: u128| #[trigger] first_by_position@.contains_key(k) implies exists|i: int|
                0 <= i < index && position_code(#[trigger] position_keys@[i]) == k by {
                if k == code {
                    assert(position_code(position_keys@[index - 1]) == k);
                } else {
                    assert(before.contains_key(k));
                }
            }
        }
    }
    canonical
}

/// How many whole triangles `indices` lists; a trailing partial one is
/// ignored.
pub open spec fn triangle_count(indices: Seq<u32>) -> int {
    indices.len() as int / 3
}

/// Whether triangle `t` of `indices` takes part in edge matching: it is
/// marked usable (its corners span a surface) and each corner has a
/// canonical vertex.
pub open spec fn triangle_takes_part(
    canonical: Seq<u32>,
    indices: Seq<u32>,
    usable: Seq<bool>,
    t: int,
) -> bool {
    &&& 0 <= t < triangle_count(indices)
    &&& t < usable.len()
    &&& usable[t]
    &&& indices[3 * t] < canonical.len()
    &&& indices[3 * t + 1] < canonical.len()
    &&& indices[3 * t + 2] < canonical.len()
}

/// Corner `c` of triangle `t`, as its canonical vertex.
pub open spec fn triangle_corner(canonical: Seq<u32>, indices: Seq<u32>, t: int, c: int) -> u32 {
    canonical[indices[3 * t + c] as int]
}

/// Whether triangle `t` takes part and has `e` among its edges.
pub open spec fn triangle_uses_edge(
    canonical: Seq<u32>,
    indices: Seq<u32>,
    usable: Seq<bool>,
    t: int,
    e: EdgeKey,
) -> bool {
    &&& triangle_takes_part(canonical, indices, usable, t)
    &&& triangle_edge_set(
        triangle_corner(canonical, indices, t, 0),
        triangle_corner(canonical, indices, t, 1),
        triangle_corner(canonical, indices, t, 2),
    ).contains(e)
}

/// The triangles among the first `n` that use edge `e`, in order.
pub open spec fn faces_of_edge(
    canonical: Seq<u32>,
    indices: Seq<u32>,
    usable: Seq<bool>,
    e: EdgeKey,
    n: int,
) -> Seq<usize>
    decreases n,
{
    if n <= 0 {
        Seq::empty()
    } else {
        let prev = faces_of_edge(canonical, indices, usable, e, n - 1);
        if triangle_uses_edge(canonical, indices, usable, n - 1, e) {
            prev.push((n - 1) as usize)
        } else {
            prev
        }
    }
}

/// How an edge is used: by how many triangles, and which come first.
#[derive(Clone, Copy, Debug, PartialEq, Eq, Structural)]
pub struct EdgeUse {
    pub edge: EdgeKey,
    pub face_count: usize,
    pub first_face: usize,
    pub second_face: Option<usize>,
}

/// The use record of edge `e` used by the triangles `faces`.
pub open spec fn edge_use_of(e: EdgeKey, faces: Seq<usize>) -> EdgeUse {
    EdgeUse {
        edge: e,
        face_count: faces.len() as usize,
        first_face: faces[0],
        second_face: if faces.len() >= 2 {
            Some(faces[1])
        } else {
            None
        },
    }
}

/// An edge packed into one integer; packed edges order as `edge_lt` does.
pub open spec fn edge_code(e: EdgeKey) -> int {
    e.a * 0x1_0000_0000 + e.b
}

proof fn lemma_edge_code(x: EdgeKey, y: EdgeKey)
    ensures
        edge_code(x) == edge_code(y) <==> x == y,
        edge_code(x) < edge_code(y) <==> edge_lt(x, y),
        0 <= edge_code(x) <= u64::MAX,
        edge_code(x) as u64 == edge_code(x),
{
}

fn pack_edge(e: EdgeKey) -> (code: u64)
    ensures
        code == edge_code(e),
{
    (e.a as u64) * 0x1_0000_0000u64 + (e.b as u64)
}

proof fn lemma_faces_of_edge_bounded(
    canonical: Seq<u32>,
    indices: Seq<u32>,
    usable: Seq<bool>,
    e: EdgeKey,
    n: int,
)
    requires
        0 <= n,
    ensures
        faces_of_edge(canonical, indices, usable, e, n).len() <= n,
        forall|k: int|
            0 <= k < faces_of_edge(canonical, indices, usable, e, n).len() ==> #[trigger] faces_of_edge(
                canonical,
                indices,
                usable,
                e,
                n,
            )[k] < n,
        faces_of_edge(canonical, indices, usable, e, n).len() > 0 ==> e.well_formed(),
    decreases n,
{
    if n > 0 {
        lemma_faces_of_edge_bounded(canonical, indices, usable, e, n - 1);
    }
}



/// `adjacency` lists, in strict edge order, one use record for each edge
/// that some taking-part triangle uses, and no other edge.
pub open spec fn describes_edge_uses(
    canonical: Seq<u32>,
    indices: Seq<u32>,
    usable: Seq<bool>,
    adjacency: Seq<EdgeUse>,
) -> bool {
    &&& forall|i: int, j: int|
        0 <= i < j < adjacency.len() ==> edge_lt(
            #[trigger] adjacency[i].edge,
            #[trigger] adjacency[j].edge,
        )
    &&& forall|i: int|
        0 <= i < adjacency.len() ==> {
            let faces = faces_of_edge(
                canonical,
                indices,
                usable,
                #[trigger] adjacency[i].edge,
                triangle_count(indices),
            );
            &&& faces.len() > 0
            &&& adjacency[i] == edge_use_of(adjacency[i].edge, faces)
        }
    &&& forall|e: EdgeKey|
        #[trigger] faces_of_edge(canonical, indices, usable, e, triangle_count(indices)).len() > 0
            ==> exists|i: int| 0 <= i < adjacency.len() && adjacency[i].edge == e
}

/// The invariant of the adjacency map after counting the uses given by
/// `faces` for every edge.
spec fn adjacency_holds(map: Map<u64, EdgeUse>, faces: spec_fn(EdgeKey) -> Seq<usize>) -> bool {
    &&& forall|k: u64| #[trigger]
        map.contains_key(k) ==> {
            let u = map[k];
            &&& edge_code(u.edge) == k
            &&& faces(u.edge).len() > 0
            &&& u == edge_use_of(u.edge, faces(u.edge))
        }
    &&& forall|e: EdgeKey| #[trigger] faces(e).len() > 0 ==> map.contains_key(edge_code(e) as u64)
}

/// Records one more use of edge `e`, by triangle `t`.
fn count_edge_use(
    map: &mut BTreeMap<u64, EdgeUse>,
    e: EdgeKey,
    t: usize,
    Ghost(faces): Ghost<spec_fn(EdgeKey) -> Seq<usize>>,
)
    requires
        adjacency_holds(old(map)@, faces),
        faces(e).len() < t + 1 <= usize::MAX,
        forall|k: int| 0 <= k < faces(e).len() ==> #[trigger] faces(e)[k] < t,
        e.well_formed(),
    ensures
        adjacency_holds(
            final(map)@,
            |x: EdgeKey|
                if x == e {
                    faces(e).push(t)
                } else {
                    faces(x)
                },
        ),
{
    broadcast use vstd::std_specs::btree::group_btree_axioms;

    proof {
        lemma_u64_keys_ordered();
    }
    let ghost next = |x: EdgeKey|
        if x == e {
            faces(e).push(t)
        } else {
            faces(x)
        };
    let code = pack_edge(e);
    let ghost before = map@;
    let updated = match map.get(&code) {
        Some(u) => {
            let u = *u;
            proof {
                lemma_edge_code(u.edge, e);
            }
            EdgeUse {
                edge: e,
                face_count: u.face_count + 1,
                first_face: u.first_face,
                second_face: if u.face_count == 1 {
                    Some(t)
                } else {
                    u.second_face
                },
            }
        },
        None => {
            assert(faces(e).len() == 0);
            EdgeUse { edge: e, face_count: 1, first_face: t, second_face: None }
        },
    };
    assert(updated == edge_use_of(e, next(e)));
    map.insert(code, updated);
    assert forall|k: u64| #[trigger] map@.contains_key(k) implies {
        let u = map@[k];
        &&& edge_code(u.edge) == k
        &&& next(u.edge).len() > 0
        &&& u == edge_use_of(u.edge, next(u.edge))
    } by {
        if k != code {
            assert(before.contains_key(k));
            lemma_edge_code(before[k].edge, e);
        }
    }
    assert forall|x: EdgeKey| #[trigger] next(x).len() > 0 implies map@.contains_key(
        edge_code(x) as u64,
    ) by {
        if x != e {
            assert(faces(x).len() > 0);
            lemma_edge_code(x, e);
        }
    }
}

/// For every edge that the usable triangles of `indices` share, after
/// mapping corners to `canonical_vertices`: how many triangles use it and
/// which two come first, in edge order. `usable_triangles[t]` says whether
/// triangle `t` spans a surface; a triangle without a flag is skipped.
pub fn mesh_edge_adjacency(
    canonical_vertices: &[u32],
    indices: &[u32],
    usable_triangles: &[bool],
) -> (adjacency: Vec<EdgeUse>)
    ensures
        describes_edge_uses(canonical_vertices@, indices@, usable_triangles@, adjacency@),
{
    broadcast use vstd::std_specs::btree::group_btree_axioms;

    proof {
        lemma_u64_keys_ordered();
    }
    let ghost cv = canonical_vertices@;
    let ghost ix = indices@;
    let ghost us = usable_triangles@;
    let count = indices.len() / 3;
    let mut map: BTreeMap<u64, EdgeUse> = BTreeMap::new();
    assert(adjacency_holds(map@, |x: EdgeKey| faces_of_edge(cv, ix, us, x, 0)));
    let mut t: usize = 0;
    while t < count
        invariant
            t <= count,
            count == ix.len() / 3,
            cv == canonical_vertices@,
            ix == indices@,
            us == usable_triangles@,
            adjacency_holds(map@, |x: EdgeKey| faces_of_edge(cv, ix, us, x, t as int)),
        decreases count - t,
    {
        let ghost before = |x: EdgeKey| faces_of_edge(cv, ix, us, x, t as int);
        let ghost after = |x: EdgeKey| faces_of_edge(cv, ix, us, x, t + 1);
        let mut counted = false;
        if t < usable_triangles.len() && usable_triangles[t] {
            assert(3 * t + 2 < indices.len()) by (nonlinear_arith)
                requires
                    t < count,
                    count == indices.len() / 3,
            ;
            let corners = [indices[3 * t], indices[3 * t + 1], indices[3 * t + 2]];
            if let Some(edges) = triangle_edges(canonical_vertices, corners) {
                assert(triangle_takes_part(cv, ix, us, t as int));
                let mut j: usize = 0;
                while j < edges.len()
                    invariant
                        j <= edges@.len(),
                        t < count,
                        count == ix.len() / 3,
                        edges@.no_duplicates(),
                        edges@.to_set() == triangle_edge_set(
                            triangle_corner(cv, ix, t as int, 0),
                            triangle_corner(cv, ix, t as int, 1),
                            triangle_corner(cv, ix, t as int, 2),
                        ),
                        adjacency_holds(
                            map@,
                            |x: EdgeKey|
                                if edges@.take(j as int).contains(x) {
                                    before(x).push(t)
                                } else {
                                    before(x)
                                },
                        ),
                        before == (|x: EdgeKey| faces_of_edge(cv, ix, us, x, t as int)),
                    decreases edges.len() - j,
                {
                    let e = edges[j];
                    let ghost current = |x: EdgeKey|
                        if edges@.take(j as int).contains(x) {
                            before(x).push(t)
                        } else {
                            before(x)
                        };
                    proof {
                        assert(!edges@.take(j as int).contains(e)) by {
                            if edges@.take(j as int).contains(e) {
                                let k = choose|k: int|
                                    0 <= k < j && #[trigger] edges@.take(j as int)[k] == e;
                                assert(edges@[k] == edges@[j as int]);
                            }
                        }
                        assert(edges@.to_set().contains(e));
                        lemma_faces_of_edge_bounded(cv, ix, us, e, t as int);
                    }
                    count_edge_use(&mut map, e, t, Ghost(current));
                    proof {
                        let next = |x: EdgeKey|
                            if edges@.take(j + 1).contains(x) {
                                before(x).push(t)
                            } else {
                                before(x)
                            };
                        let shorter = edges@.take(j as int);
                        let longer = edges@.take(j + 1);
                        assert(longer == shorter.push(e));
                        assert forall|x: EdgeKey| #[trigger]
                            longer.contains(x) <==> (shorter.contains(x) || x == e) by {
                            if shorter.contains(x) {
                                let k = choose|k: int| 0 <= k < shorter.len() && shorter[k] == x;
                                assert(longer[k] == x);
                            }
                            if x == e {
                                assert(longer[j as int] == x);
                            }
                            if longer.contains(x) && x != e {
                                let k = choose|k: int| 0 <= k < longer.len() && longer[k] == x;
                                assert(shorter[k] == x);
                            }
                        }
                        assert(next =~= (|x: EdgeKey|
                            if x == e {
                                current(e).push(t)
                            } else {
                                current(x)
                            }));
                    }
                    j += 1;
                }
                proof {
                    assert(edges@.take(j as int) == edges@);
                    assert forall|x: EdgeKey| #![trigger after(x)] after(x) == (if edges@.contains(x) {
                        before(x).push(t)
                    } else {
                        before(x)
                    }) by {
                        assert(edges@.contains(x) <==> edges@.to_set().contains(x));
                    }
                    assert(after =~= (|x: EdgeKey|
                        if edges@.take(j as int).contains(x) {
                            before(x).push(t)
                        } else {
                            before(x)
                        }));
                }
                counted = true;
            }
        }
        if !counted {
            proof {
                assert(!triangle_takes_part(cv, ix, us, t as int));
                assert(after =~= before);
            }
        }
        t += 1;
    }
    let keys = sorted_keys(&map);
    let mut adjacency: Vec<EdgeUse> = Vec::new();
    let mut i: usize = 0;
    while i < keys.len()
        invariant
            i <= keys@.len(),
            adjacency@.len() == i,
            keys@.to_set() == map@.dom(),
            forall|k: int| 0 <= k < i ==> adjacency@[k] == map@[#[trigger] keys@[k]],
        decreases keys.len() - i,
    {
        assert(keys@.to_set().contains(keys@[i as int]));
        if let Some(u) = map.get(&keys[i]) {
            adjacency.push(*u);
        } else {
            proof {
                assert(false);
            }
        }
        i += 1;
    }
    proof {
        let faces = |x: EdgeKey| faces_of_edge(cv, ix, us, x, triangle_count(ix));
        assert((|x: EdgeKey| faces_of_edge(cv, ix, us, x, t as int)) =~= faces);
        assert forall|a: int, b: int| 0 <= a < b < adjacency@.len() implies edge_lt(
            #[trigger] adjacency@[a].edge,
            #[trigger] adjacency@[b].edge,
        ) by {
            assert(keys@.to_set().contains(keys@[a]));
            assert(keys@.to_set().contains(keys@[b]));
            assert(map@.contains_key(keys@[a]));
            assert(map@.contains_key(keys@[b]));
            lemma_edge_code(adjacency@[a].edge, adjacency@[b].edge);
        }
        assert forall|a: int| 0 <= a < adjacency@.len() implies {
            let fs = faces_of_edge(cv, ix, us, #[trigger] adjacency@[a].edge, triangle_count(ix));
            &&& fs.len() > 0
            &&& adjacency@[a] == edge_use_of(adjacency@[a].edge, fs)
        } by {
            assert(keys@.to_set().contains(keys@[a]));
            assert(map@.contains_key(keys@[a]));
        }
        assert forall|e: EdgeKey|
            #[trigger] faces_of_edge(cv, ix, us, e, triangle_count(ix)).len() > 0 implies exists|a: int|
                0 <= a < adjacency@.len() && adjacency@[a].edge == e by {
            assert(faces(e).len() > 0);
            let code = edge_code(e) as u64;
            assert(map@.contains_key(code));
            assert(keys@.to_set().contains(code));
            let a = choose|a: int| 0 <= a < keys@.len() && keys@[a] == code;
            assert(map@.contains_key(keys@[a]));
            lemma_edge_code(adjacency@[a].edge, e);
            assert(adjacency@[a].edge == e);
        }
    }
    adjacency
}

/// A use record marks a boundary edge when exactly one triangle uses it.
pub open spec fn is_boundary_use(u: EdgeUse) -> bool {
    u.face_count == 1
}

/// A use record marks a crease edge when any number of triangles other than
/// one or two use it, or two do and they meet at a sharp angle.
pub open spec fn is_crease_use(u: EdgeUse, sharp: bool) -> bool {
    u.face_count != 1 && (u.face_count != 2 || sharp)
}

/// The sharpness flag of entry `i`; a missing flag reads as not sharp.
pub open spec fn sharp_at(sharp: Seq<bool>, i: int) -> bool {
    0 <= i < sharp.len() && sharp[i]
}

/// The boundary edges among `adjacency`, in order.
pub open spec fn boundary_edges_of(adjacency: Seq<EdgeUse>) -> Seq<EdgeKey>
    decreases adjacency.len(),
{
    if adjacency.len() == 0 {
        Seq::empty()
    } else {
        let prev = boundary_edges_of(adjacency.drop_last());
        if is_boundary_use(adjacency.last()) {
            prev.push(adjacency.last().edge)
        } else {
            prev
        }
    }
}

/// The crease edges among `adjacency`, in order.
pub open spec fn crease_edges_of(adjacency: Seq<EdgeUse>, sharp: Seq<bool>) -> Seq<EdgeKey>
    decreases adjacency.len(),
{
    if adjacency.len() == 0 {
        Seq::empty()
    } else {
        let prev = crease_edges_of(adjacency.drop_last(), sharp);
        if is_crease_use(adjacency.last(), sharp_at(sharp, adjacency.len() - 1)) {
            prev.push(adjacency.last().edge)
        } else {
            prev
        }
    }
}

/// The vertex pairs `pairs` list the edges `edges`, one for one.
pub open spec fn pairs_of_edges(pairs: Seq<[u32; 2]>, edges: Seq<EdgeKey>) -> bool {
    &&& pairs.len() == edges.len()
    &&& forall|k: int| 0 <= k < pairs.len() ==> #[trigger] pairs[k]@ == seq![edges[k].a, edges[k].b]
}

/// Sorts the used edges of a mesh into boundary edges (one triangle) and
/// crease edges (two triangles meeting at a sharp angle, as
/// `sharp[i]` says for entry `i`, or more than two triangles).
pub fn classify_mesh_edges(adjacency: &[EdgeUse], sharp: &[bool]) -> (edges: ExtractedMeshEdges)
    ensures
        pairs_of_edges(edges.boundary_edges@, boundary_edges_of(adjacency@)),
        pairs_of_edges(edges.crease_edges@, crease_edges_of(adjacency@, sharp@)),
{
    let mut boundary_edges: Vec<[u32; 2]> = Vec::new();
    let mut crease_edges: Vec<[u32; 2]> = Vec::new();
    let mut i: usize = 0;
    while i < adjacency.len()
        invariant
            i <= adjacency@.len(),
            pairs_of_edges(boundary_edges@, boundary_edges_of(adjacency@.take(i as int))),
            pairs_of_edges(crease_edges@, crease_edges_of(adjacency@.take(i as int), sharp@)),
        decreases adjacency.len() - i,
    {
        let u = adjacency[i];
        let ghost prefix = adjacency@.take(i as int);
        assert(adjacency@.take(i + 1).drop_last() == prefix);
        assert(adjacency@.take(i + 1).last() == u);
        if u.face_count == 1 {
            boundary_edges.push(u.edge.as_pair());
        } else if u.face_count != 2 || (i < sharp.len() && sharp[i]) {
            crease_edges.push(u.edge.as_pair());
        }
        i += 1;
    }
    assert(adjacency@.take(i as int) == adjacency@);
    ExtractedMeshEdges { boundary_edges, crease_edges }
}

proof fn lemma_boundary_edges_of_members(adjacency: Seq<EdgeUse>, e: EdgeKey)
    ensures
        boundary_edges_of(adjacency).contains(e) <==> exists|i: int|
            0 <= i < adjacency.len() && #[trigger] adjacency[i].edge == e && is_boundary_use(
                adjacency[i],
            ),
    decreases adjacency.len(),
{
    if adjacency.len() > 0 {
        let prefix = adjacency.drop_last();
        lemma_boundary_edges_of_members(prefix, e);
        let prev = boundary_edges_of(prefix);
        if boundary_edges_of(adjacency).contains(e) {
            let k = choose|k: int|
                0 <= k < boundary_edges_of(adjacency).len() && boundary_edges_of(adjacency)[k] == e;
            if k < prev.len() {
                assert(prev[k] == e);
                let i = choose|i: int|
                    0 <= i < prefix.len() && #[trigger] prefix[i].edge == e && is_boundary_use(
                        prefix[i],
                    );
                assert(adjacency[i] == prefix[i]);
            } else {
                assert(adjacency[adjacency.len() - 1].edge == e);
            }
        }
        if exists|i: int|
            0 <= i < adjacency.len() && #[trigger] adjacency[i].edge == e && is_boundary_use(
                adjacency[i],
            ) {
            let i = choose|i: int|
                0 <= i < adjacency.len() && #[trigger] adjacency[i].edge == e && is_boundary_use(
                    adjacency[i],
                );
            if i < prefix.len() {
                assert(prefix[i] == adjacency[i]);
                let k = choose|k: int| 0 <= k < prev.len() && prev[k] == e;
                assert(boundary_edges_of(adjacency)[k] == e);
            } else {
                assert(boundary_edges_of(adjacency).last() == e);
            }
        }
    }
}

proof fn lemma_crease_edges_of_members(adjacency: Seq<EdgeUse>, sharp: Seq<bool>, e: EdgeKey)
    ensures
        crease_edges_of(adjacency, sharp).contains(e) <==> exists|i: int|
            0 <= i < adjacency.len() && #[trigger] adjacency[i].edge == e && is_crease_use(
                adjacency[i],
                sharp_at(sharp, i),
            ),
    decreases adjacency.len(),
{
    if adjacency.len() > 0 {
        let prefix = adjacency.drop_last();
        lemma_crease_edges_of_members(prefix, sharp, e);
        let prev = crease_edges_of(prefix, sharp);
        let all = crease_edges_of(adjacency, sharp);
        if all.contains(e) {
            let k = choose|k: int| 0 <= k < all.len() && all[k] == e;
            if k < prev.len() {
                assert(prev[k] == e);
                let i = choose|i: int|
                    0 <= i < prefix.len() && #[trigger] prefix[i].edge == e && is_crease_use(
                        prefix[i],
                        sharp_at(sharp, i),
                    );
                assert(adjacency[i] == prefix[i]);
            } else {
                assert(adjacency[adjacency.len() - 1].edge == e);
            }
        }
        if exists|i: int|
            0 <= i < adjacency.len() && #[trigger] adjacency[i].edge == e && is_crease_use(
                adjacency[i],
                sharp_at(sharp, i),
            ) {
            let i = choose|i: int|
                0 <= i < adjacency.len() && #[trigger] adjacency[i].edge == e && is_crease_use(
                    adjacency[i],
                    sharp_at(sharp, i),
                );
            if i < prefix.len() {
                assert(prefix[i] == adjacency[i]);
                let k = choose|k: int| 0 <= k < prev.len() && prev[k] == e;
                assert(all[k] == e);
            } else {
                assert(all.last() == e);
            }
        }
    }
}

/// Each extracted edge belongs to the use record it came from, so the
/// extracted lists keep the strict edge order of the records.
proof fn lemma_extracted_edges_sorted(adjacency: Seq<EdgeUse>, sharp: Seq<bool>)
    requires
        forall|i: int, j: int|
            0 <= i < j < adjacency.len() ==> edge_lt(
                #[trigger] adjacency[i].edge,
                #[trigger] adjacency[j].edge,
            ),
    ensures
        edges_sorted(boundary_edges_of(adjacency)),
        edges_sorted(crease_edges_of(adjacency, sharp)),
        forall|k: int|
            0 <= k < boundary_edges_of(adjacency).len() ==> exists|i: int|
                0 <= i < adjacency.len() && adjacency[i].edge == #[trigger] boundary_edges_of(
                    adjacency,
                )[k],
        forall|k: int|
            0 <= k < crease_edges_of(adjacency, sharp).len() ==> exists|i: int|
                0 <= i < adjacency.len() && adjacency[i].edge == #[trigger] crease_edges_of(
                    adjacency,
                    sharp,
                )[k],
    decreases adjacency.len(),
{
    if adjacency.len() > 0 {
        let prefix = adjacency.drop_last();
        let last = adjacency.len() - 1;
        assert forall|i: int, j: int| 0 <= i < j < prefix.len() implies edge_lt(
            #[trigger] prefix[i].edge,
            #[trigger] prefix[j].edge,
        ) by {
            assert(prefix[i] == adjacency[i]);
            assert(prefix[j] == adjacency[j]);
        }
        lemma_extracted_edges_sorted(prefix, sharp);
        let pb = boundary_edges_of(prefix);
        let pc = crease_edges_of(prefix, sharp);
        assert forall|k: int| 0 <= k < pb.len() implies edge_lt(#[trigger] pb[k], adjacency[last].edge) by {
            let i = choose|i: int| 0 <= i < prefix.len() && prefix[i].edge == pb[k];
            assert(adjacency[i] == prefix[i]);
        }
        assert forall|k: int| 0 <= k < pc.len() implies edge_lt(#[trigger] pc[k], adjacency[last].edge) by {
            let i = choose|i: int| 0 <= i < prefix.len() && prefix[i].edge == pc[k];
            assert(adjacency[i] == prefix[i]);
        }
        let b = boundary_edges_of(adjacency);
        let c = crease_edges_of(adjacency, sharp);
        assert forall|k: int| 0 <= k < b.len() implies exists|i: int|
            0 <= i < adjacency.len() && adjacency[i].edge == #[trigger] b[k] by {
            if k < pb.len() {
                let i = choose|i: int| 0 <= i < prefix.len() && prefix[i].edge == pb[k];
                assert(adjacency[i] == prefix[i]);
            } else {
                assert(adjacency[last].edge == b[k]);
            }
        }
        assert forall|k: int| 0 <= k < c.len() implies exists|i: int|
            0 <= i < adjacency.len() && adjacency[i].edge == #[trigger] c[k] by {
            if k < pc.len() {
                let i = choose|i: int| 0 <= i < prefix.len() && prefix[i].edge == pc[k];
                assert(adjacency[i] == prefix[i]);
            } else {
                assert(adjacency[last].edge == c[k]);
            }
        }
    }
}

/// Mesh edge extraction: an edge is a boundary edge exactly when one
/// taking-part triangle uses it; it is a crease edge exactly when three or
/// more do, or two do and its record is flagged sharp; no edge is both; and
/// both lists come in strict edge order.
pub proof fn lemma_extracted_edge_kinds(
    canonical: Seq<u32>,
    indices: Seq<u32>,
    usable: Seq<bool>,
    adjacency: Seq<EdgeUse>,
    sharp: Seq<bool>,
    e: EdgeKey,
)
    requires
        indices.len() <= usize::MAX,
        describes_edge_uses(canonical, indices, usable, adjacency),
    ensures
        ({
            let faces = faces_of_edge(canonical, indices, usable, e, triangle_count(indices));
            &&& boundary_edges_of(adjacency).contains(e) <==> faces.len() == 1
            &&& crease_edges_of(adjacency, sharp).contains(e) <==> exists|i: int|
                0 <= i < adjacency.len() && #[trigger] adjacency[i].edge == e && (faces.len() >= 3
                    || (faces.len() == 2 && sharp_at(sharp, i)))
        }),
        !(boundary_edges_of(adjacency).contains(e) && crease_edges_of(adjacency, sharp).contains(
            e,
        )),
        edges_sorted(boundary_edges_of(adjacency)),
        edges_sorted(crease_edges_of(adjacency, sharp)),
{
    let n = triangle_count(indices);
    let faces = faces_of_edge(canonical, indices, usable, e, n);
    lemma_faces_of_edge_bounded(canonical, indices, usable, e, n);
    lemma_boundary_edges_of_members(adjacency, e);
    lemma_crease_edges_of_members(adjacency, sharp, e);
    lemma_extracted_edges_sorted(adjacency, sharp);
    assert forall|i: int| 0 <= i < adjacency.len() && #[trigger] adjacency[i].edge == e implies adjacency[i].face_count == faces.len() by {
    }
    if faces.len() > 0 {
        let i = choose|i: int| 0 <= i < adjacency.len() && adjacency[i].edge == e;
        assert(adjacency[i].face_count == faces.len());
    }
}

/// The extracted outline of a mesh: edges used by one triangle only, and
/// edges where the surface folds or more than two triangles meet.
#[derive(Clone, Debug, PartialEq, Eq)]
pub struct ExtractedMeshEdges {
    pub boundary_edges: Vec<[u32; 2]>,
    pub crease_edges: Vec<[u32; 2]>,
}

} // verus!
