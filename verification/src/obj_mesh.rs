//! Turning the polygons of a Wavefront OBJ file into mesh vertex data.
//!
//! The file is read elsewhere; what it holds is handed over as plain
//! tables: the positions, texture coordinates and normals, and the objects,
//! made of groups of polygons whose corners index those tables.

use vstd::prelude::*;

verus! {

/// One corner of a polygon: the index of its position, and those of its
/// texture coordinate and of its normal, where it has them.
#[derive(Debug, Clone, Copy, PartialEq, Eq, Structural)]
pub struct IndexTuple(pub usize, pub Option<usize>, pub Option<usize>);

/// A polygon, by its corners.
pub struct SimplePolygon(pub Vec<IndexTuple>);

/// A group of polygons.
pub struct Group {
    pub polys: Vec<SimplePolygon>,
}

/// An object, made of groups.
pub struct Object {
    pub groups: Vec<Group>,
}

/// The corners of `polys`, polygon after polygon.
pub open spec fn poly_tuples(polys: Seq<SimplePolygon>) -> Seq<IndexTuple>
    decreases polys.len(),
{
    if polys.len() == 0 {
        Seq::empty()
    } else {
        poly_tuples(polys.drop_last()) + polys.last().0@
    }
}

/// The corners of a group, polygon after polygon.
pub open spec fn group_tuples(g: &Group) -> Seq<IndexTuple> {
    poly_tuples(g.polys@)
}

proof fn lemma_poly_tuples_take(polys: Seq<SimplePolygon>, p: int)
    requires
        0 <= p < polys.len(),
    ensures
        poly_tuples(polys.take(p + 1)) == poly_tuples(polys.take(p)) + polys[p].0@,
{
    assert(polys.take(p + 1).drop_last() =~= polys.take(p));
}

/// Applies `extractor` to every corner of the group's polygons, polygon
/// after polygon, and collects the results.
pub fn extract_attribute_indices<T, F: Fn(&IndexTuple) -> T>(obj_group: &Group, extractor: F) -> (r: Vec<T>)
    requires
        forall|t: &IndexTuple| call_requires(extractor, (t,)),
    ensures
        r@.len() == group_tuples(obj_group).len(),
        forall|i: int|
            0 <= i < r@.len() ==> call_ensures(extractor, (&group_tuples(obj_group)[i],), #[trigger] r@[i]),
{
    let ghost polys = obj_group.polys@;
    let mut r: Vec<T> = Vec::new();
    let mut p: usize = 0;
    while p < obj_group.polys.len()
        invariant
            polys == obj_group.polys@,
            p <= polys.len(),
            forall|t: &IndexTuple| call_requires(extractor, (t,)),
            r@.len() == poly_tuples(polys.take(p as int)).len(),
            forall|i: int|
                0 <= i < r@.len() ==> call_ensures(
                    extractor,
                    (&poly_tuples(polys.take(p as int))[i],),
                    #[trigger] r@[i],
                ),
        decreases polys.len() - p,
    {
        let poly = &obj_group.polys[p];
        let ghost before = poly_tuples(polys.take(p as int));
        let mut k: usize = 0;
        while k < poly.0.len()
            invariant
                polys == obj_group.polys@,
                p < polys.len(),
                *poly == polys[p as int],
                before == poly_tuples(polys.take(p as int)),
                k <= poly.0@.len(),
                forall|t: &IndexTuple| call_requires(extractor, (t,)),
                r@.len() == before.len() + k,
                forall|i: int|
                    0 <= i < r@.len() ==> call_ensures(
                        extractor,
                        (&(before + poly.0@)[i],),
                        #[trigger] r@[i],
                    ),
            decreases poly.0@.len() - k,
        {
            let v = extractor(&poly.0[k]);
            r.push(v);
            k = k + 1;
        }
        proof {
            lemma_poly_tuples_take(polys, p as int);
        }
        p = p + 1;
    }
    assert(polys.take(polys.len() as int) =~= polys);
    r
}

/// The entries of `table` at the indices `idx`, one after another,
/// flattened.
pub open spec fn gathered<T, const N: usize>(table: Seq<[T; N]>, idx: Seq<usize>) -> Seq<T>
    decreases idx.len(),
{
    if idx.len() == 0 {
        Seq::empty()
    } else {
        gathered(table, idx.drop_last()) + table[idx.last() as int]@
    }
}

/// The position indices of the corners `ts`.
pub open spec fn position_indices(ts: Seq<IndexTuple>) -> Seq<usize> {
    ts.map_values(|t: IndexTuple| t.0)
}

/// The texture-coordinate indices of the corners `ts` (where all have one).
pub open spec fn texture_indices(ts: Seq<IndexTuple>) -> Seq<usize> {
    ts.map_values(|t: IndexTuple| t.1->0)
}

/// The normal indices of the corners `ts` (where all have one).
pub open spec fn normal_indices(ts: Seq<IndexTuple>) -> Seq<usize> {
    ts.map_values(|t: IndexTuple| t.2->0)
}

/// Whether every corner has a texture coordinate.
pub open spec fn all_textured(ts: Seq<IndexTuple>) -> bool {
    forall|i: int| 0 <= i < ts.len() ==> (#[trigger] ts[i]).1 is Some
}

/// Whether every corner has a normal.
pub open spec fn all_normaled(ts: Seq<IndexTuple>) -> bool {
    forall|i: int| 0 <= i < ts.len() ==> (#[trigger] ts[i]).2 is Some
}

/// Every corner's indices point into the tables that will be read: the
/// positions always, the texture coordinates and the normals where every
/// corner has one.
pub open spec fn indices_in_range(ts: Seq<IndexTuple>, n_pos: nat, n_tex: nat, n_norm: nat) -> bool {
    &&& forall|i: int| 0 <= i < ts.len() ==> (#[trigger] ts[i]).0 < n_pos
    &&& all_textured(ts) ==> forall|i: int| 0 <= i < ts.len() ==> (#[trigger] ts[i]).1->0 < n_tex
    &&& all_normaled(ts) ==> forall|i: int| 0 <= i < ts.len() ==> (#[trigger] ts[i]).2->0 < n_norm
}

proof fn lemma_gathered_len<T, const N: usize>(table: Seq<[T; N]>, idx: Seq<usize>)
    requires
        forall|i: int| 0 <= i < idx.len() ==> (#[trigger] idx[i]) < table.len(),
        forall|i: int| 0 <= i < table.len() ==> (#[trigger] table[i])@.len() == N,
    ensures
        gathered(table, idx).len() == N * idx.len(),
    decreases idx.len(),
{
    if idx.len() > 0 {
        lemma_gathered_len(table, idx.drop_last());
        assert(table[idx.last() as int]@.len() == N);
        assert(N * idx.len() == N * (idx.len() - 1) + N) by (nonlinear_arith);
    }
}

/// The entries of `table` at the indices `indices`, flattened.
pub fn gather<T: Copy, const N: usize>(table: &Vec<[T; N]>, indices: &Vec<usize>) -> (r: Vec<T>)
    requires
        forall|i: int| 0 <= i < indices@.len() ==> (#[trigger] indices@[i]) < table@.len(),
    ensures
        r@ == gathered(table@, indices@),
{
    let mut r: Vec<T> = Vec::new();
    let mut i: usize = 0;
    while i < indices.len()
        invariant
            i <= indices@.len(),
            forall|q: int| 0 <= q < indices@.len() ==> (#[trigger] indices@[q]) < table@.len(),
            r@ == gathered(table@, indices@.take(i as int)),
        decreases indices@.len() - i,
    {
        let entry: [T; N] = table[indices[i]];
        let ghost before = r@;
        let mut j: usize = 0;
        while j < N
            invariant
                j <= N,
                entry@.len() == N,
                r@ == before + entry@.take(j as int),
            decreases N - j,
        {
            r.push(entry[j]);
            j = j + 1;
            assert(r@ =~= before + entry@.take(j as int));
        }
        assert(entry@.take(N as int) =~= entry@);
        assert(indices@.take(i + 1).drop_last() =~= indices@.take(i as int));
        i = i + 1;
    }
    assert(indices@.take(indices@.len() as int) =~= indices@);
    r
}

/// The vertex data of one mesh, as the renderer wants it.
pub struct MeshData<T> {
    /// Three values per vertex.
    pub positions: Vec<T>,
    /// Three values per vertex, or `None` where the file gives no normal for
    /// some vertex: the normals are then to be computed from the positions.
    pub normals: Option<Vec<T>>,
    /// Two values per vertex, or none at all where the file gives no texture
    /// coordinate for some vertex.
    pub texture_coordinates: Vec<T>,
    pub indices: Vec<u32>,
}

/// Whether `o` can be turned into vertex data with tables of these sizes:
/// it has a group, the corners of its first group index into the tables,
/// and its position values can be counted.
pub open spec fn loadable(o: &Object, n_pos: nat, n_tex: nat, n_norm: nat) -> bool {
    &&& o.groups@.len() > 0
    &&& indices_in_range(group_tuples(&o.groups@[0]), n_pos, n_tex, n_norm)
    &&& 3 * group_tuples(&o.groups@[0]).len() <= usize::MAX
}

/// `m` is the vertex data of `o` over these tables: the corners of the
/// polygons of its first group, as a flat triangle list.  The texture
/// coordinates are there only where every corner has one, and likewise the
/// normals.  The index list counts up from zero to the number of position
/// values (cast to `u32`).
pub open spec fn mesh_of<T>(
    m: &MeshData<T>,
    o: &Object,
    pos: Seq<[T; 3]>,
    tex: Seq<[T; 2]>,
    norm: Seq<[T; 3]>,
) -> bool {
    let ts = group_tuples(&o.groups@[0]);
    &&& m.positions@ == gathered(pos, position_indices(ts))
    &&& m.positions@.len() == 3 * ts.len()
    &&& m.texture_coordinates@ == if all_textured(ts) {
        gathered(tex, texture_indices(ts))
    } else {
        Seq::empty()
    }
    &&& (m.normals is Some <==> all_normaled(ts))
    &&& (m.normals matches Some(n) ==> n@ == gathered(norm, normal_indices(ts)))
    &&& m.indices@ == Seq::new(
        (#[verifier::truncate] (m.positions@.len() as u32)) as nat,
        |i: int| i as u32,
    )
}

/// The vertex data of an object (see `mesh_of`).
pub fn object_mesh_data<T: Copy>(
    object: &Object,
    all_pos: &Vec<[T; 3]>,
    all_tex: &Vec<[T; 2]>,
    all_norm: &Vec<[T; 3]>,
) -> (m: MeshData<T>)
    requires
        loadable(object, all_pos@.len(), all_tex@.len(), all_norm@.len()),
    ensures
        mesh_of(&m, object, all_pos@, all_tex@, all_norm@),
{
    let obj_group = &object.groups[0];
    let ghost ts = group_tuples(obj_group);

    let position_idx = extract_attribute_indices(
        obj_group,
        position_index,
    );
    assert(position_idx@ =~= position_indices(ts));
    let positions = gather(all_pos, &position_idx);
    proof {
        lemma_gathered_len(all_pos@, position_idx@);
    }

    let texture_idx = extract_attribute_indices(
        obj_group,
        texture_index,
    );
    let has_texture_coordinates = all_some(&texture_idx);
    assert(has_texture_coordinates == all_textured(ts)) by {
        if !has_texture_coordinates {
            let i = choose|i: int| 0 <= i < texture_idx@.len() && texture_idx@[i] is None;
            assert(ts[i].1 is None);
        } else {
            assert forall|i: int| 0 <= i < ts.len() implies (#[trigger] ts[i]).1 is Some by {
                assert(texture_idx@[i] is Some);
            }
        }
    }
    let texture_coordinates = if has_texture_coordinates {
        let idx = unwrap_all(&texture_idx);
        assert(idx@ =~= texture_indices(ts));
        gather(all_tex, &idx)
    } else {
        Vec::new()
    };

    let normal_idx = extract_attribute_indices(
        obj_group,
        normal_index,
    );
    let has_normals = all_some(&normal_idx);
    assert(has_normals == all_normaled(ts)) by {
        if !has_normals {
            let i = choose|i: int| 0 <= i < normal_idx@.len() && normal_idx@[i] is None;
            assert(ts[i].2 is None);
        } else {
            assert forall|i: int| 0 <= i < ts.len() implies (#[trigger] ts[i]).2 is Some by {
                assert(normal_idx@[i] is Some);
            }
        }
    }
    let normals = if has_normals {
        let idx = unwrap_all(&normal_idx);
        assert(idx@ =~= normal_indices(ts));
        Some(gather(all_norm, &idx))
    } else {
        None
    };

    let indices = count_up(#[verifier::truncate] (positions.len() as u32));
    MeshData { positions, normals, texture_coordinates, indices }
}

/// The position index of a corner.
fn position_index(t: &IndexTuple) -> (r: usize)
    ensures
        r == t.0,
{
    t.0
}

/// The texture-coordinate index of a corner.
fn texture_index(t: &IndexTuple) -> (r: Option<usize>)
    ensures
        r == t.1,
{
    t.1
}

/// The normal index of a corner.
fn normal_index(t: &IndexTuple) -> (r: Option<usize>)
    ensures
        r == t.2,
{
    t.2
}

/// Whether every entry is `Some`.
pub fn all_some(v: &Vec<Option<usize>>) -> (r: bool)
    ensures
        r == forall|i: int| 0 <= i < v@.len() ==> (#[trigger] v@[i]) is Some,
{
    let mut i: usize = 0;
    while i < v.len()
        invariant
            i <= v@.len(),
            forall|q: int| 0 <= q < i ==> (#[trigger] v@[q]) is Some,
        decreases v@.len() - i,
    {
        if v[i].is_none() {
            return false;
        }
        i = i + 1;
    }
    true
}

/// The values inside entries that are all `Some`.
fn unwrap_all(v: &Vec<Option<usize>>) -> (r: Vec<usize>)
    requires
        forall|i: int| 0 <= i < v@.len() ==> (#[trigger] v@[i]) is Some,
    ensures
        r@ == v@.map_values(|o: Option<usize>| o->0),
{
    let mut r: Vec<usize> = Vec::new();
    let mut i: usize = 0;
    while i < v.len()
        invariant
            i <= v@.len(),
            forall|q: int| 0 <= q < v@.len() ==> (#[trigger] v@[q]) is Some,
            r@ == v@.take(i as int).map_values(|o: Option<usize>| o->0),
        decreases v@.len() - i,
    {
        r.push(v[i].unwrap());
        i = i + 1;
        assert(r@ =~= v@.take(i as int).map_values(|o: Option<usize>| o->0));
    }
    assert(v@.take(v@.len() as int) =~= v@);
    r
}

/// `0, 1, ..., n - 1`.
pub fn count_up(n: u32) -> (r: Vec<u32>)
    ensures
        r@ == Seq::new(n as nat, |i: int| i as u32),
{
    let mut r: Vec<u32> = Vec::new();
    let mut i: u32 = 0;
    while i < n
        invariant
            i <= n,
            r@ == Seq::new(i as nat, |q: int| q as u32),
        decreases n - i,
    {
        r.push(i);
        i = i + 1;
        assert(r@ =~= Seq::new(i as nat, |q: int| q as u32));
    }
    r
}

/// The contents of an OBJ file: the attribute tables and the objects.
pub struct ObjData<T> {
    pub position: Vec<[T; 3]>,
    pub texture: Vec<[T; 2]>,
    pub normal: Vec<[T; 3]>,
    pub objects: Vec<Object>,
}

/// Whether every object of `data` can be turned into vertex data.
pub open spec fn all_loadable<T>(data: &ObjData<T>) -> bool {
    forall|i: int|
        0 <= i < data.objects@.len() ==> loadable(
            &#[trigger] data.objects@[i],
            data.position@.len(),
            data.texture@.len(),
            data.normal@.len(),
        )
}

/// The vertex data of every object of `data`, one mesh per object, in order.
pub fn obj_meshes<T: Copy>(data: &ObjData<T>) -> (r: Vec<MeshData<T>>)
    requires
        all_loadable(data),
    ensures
        r@.len() == data.objects@.len(),
        forall|i: int|
            0 <= i < r@.len() ==> mesh_of(
                &#[trigger] r@[i],
                &data.objects@[i],
                data.position@,
                data.texture@,
                data.normal@,
            ),
{
    let mut r: Vec<MeshData<T>> = Vec::new();
    let mut i: usize = 0;
    while i < data.objects.len()
        invariant
            i <= data.objects@.len(),
            all_loadable(data),
            r@.len() == i,
            forall|q: int|
                0 <= q < i ==> mesh_of(
                    &#[trigger] r@[q],
                    &data.objects@[q],
                    data.position@,
                    data.texture@,
                    data.normal@,
                ),
        decreases data.objects@.len() - i,
    {
        let m = object_mesh_data(&data.objects[i], &data.position, &data.texture, &data.normal);
        r.push(m);
        i = i + 1;
    }
    r
}

/// A corner, as it is.
fn corner(t: &IndexTuple) -> (r: IndexTuple)
    ensures
        r == *t,
{
    *t
}

/// Whether `o` can be turned into vertex data with tables of these sizes
/// (see `loadable`).
pub fn is_loadable(o: &Object, n_pos: usize, n_tex: usize, n_norm: usize) -> (r: bool)
    ensures
        r == loadable(o, n_pos as nat, n_tex as nat, n_norm as nat),
{
    if o.groups.len() == 0 {
        return false;
    }
    let ts_vec = extract_attribute_indices(&o.groups[0], corner);
    let ghost ts = group_tuples(&o.groups@[0]);
    assert(ts_vec@ =~= ts);
    if ts_vec.len() > usize::MAX / 3 {
        return false;
    }
    let mut pos_in = true;
    let mut tex_all = true;
    let mut tex_in = true;
    let mut norm_all = true;
    let mut norm_in = true;
    let mut i: usize = 0;
    while i < ts_vec.len()
        invariant
            ts_vec@ == ts,
            i <= ts.len(),
            pos_in == forall|q: int| 0 <= q < i ==> (#[trigger] ts[q]).0 < n_pos,
            tex_all == forall|q: int| 0 <= q < i ==> (#[trigger] ts[q]).1 is Some,
            tex_in == forall|q: int| 0 <= q < i && (#[trigger] ts[q]).1 is Some ==> ts[q].1->0 < n_tex,
            norm_all == forall|q: int| 0 <= q < i ==> (#[trigger] ts[q]).2 is Some,
            norm_in == forall|q: int| 0 <= q < i && (#[trigger] ts[q]).2 is Some ==> ts[q].2->0 < n_norm,
        decreases ts.len() - i,
    {
        let t = ts_vec[i];
        pos_in = pos_in && t.0 < n_pos;
        match t.1 {
            Some(x) => {
                tex_in = tex_in && x < n_tex;
            },
            None => {
                tex_all = false;
            },
        }
        match t.2 {
            Some(x) => {
                norm_in = norm_in && x < n_norm;
            },
            None => {
                norm_all = false;
            },
        }
        i = i + 1;
    }
    pos_in && (!tex_all || tex_in) && (!norm_all || norm_in)
}

/// Whether every object of `data` can be turned into vertex data (see
/// `all_loadable`).
pub fn is_all_loadable<T>(data: &ObjData<T>) -> (r: bool)
    ensures
        r == all_loadable(data),
{
    let mut i: usize = 0;
    while i < data.objects.len()
        invariant
            i <= data.objects@.len(),
            forall|q: int|
                0 <= q < i ==> loadable(
                    &#[trigger] data.objects@[q],
                    data.position@.len(),
                    data.texture@.len(),
                    data.normal@.len(),
                ),
        decreases data.objects@.len() - i,
    {
        if !is_loadable(&data.objects[i], data.position.len(), data.texture.len(), data.normal.len()) {
            return false;
        }
        i = i + 1;
    }
    true
}

/// Appends the entries of `a` to `v`.
fn extend_from_array<T: Copy, const N: usize>(v: &mut Vec<T>, a: [T; N])
    ensures
        final(v)@ == old(v)@ + a@,
{
    let ghost before = v@;
    let mut j: usize = 0;
    while j < N
        invariant
            j <= N,
            a@.len() == N,
            v@ == before + a@.take(j as int),
        decreases N - j,
    {
        v.push(a[j]);
        j = j + 1;
        assert(v@ =~= before + a@.take(j as int));
    }
    assert(a@.take(N as int) =~= a@);
}

/// The interleaved vertex values of one corner: its position, then its
/// normal where it has one, then its texture coordinate where it has one.
pub open spec fn corner_values<T>(
    t: IndexTuple,
    pos: Seq<[T; 3]>,
    norm: Seq<[T; 3]>,
    tex: Seq<[T; 2]>,
) -> Seq<T> {
    pos[t.0 as int]@ + (if t.2 is Some {
        norm[t.2->0 as int]@
    } else {
        Seq::empty()
    }) + (if t.1 is Some {
        tex[t.1->0 as int]@
    } else {
        Seq::empty()
    })
}

/// The interleaved vertex values of the corners `ts`, one after another.
pub open spec fn interleaved<T>(
    ts: Seq<IndexTuple>,
    pos: Seq<[T; 3]>,
    norm: Seq<[T; 3]>,
    tex: Seq<[T; 2]>,
) -> Seq<T>
    decreases ts.len(),
{
    if ts.len() == 0 {
        Seq::empty()
    } else {
        interleaved(ts.drop_last(), pos, norm, tex) + corner_values(ts.last(), pos, norm, tex)
    }
}

/// Every index that a corner holds points into its table.
pub open spec fn corners_in_range(ts: Seq<IndexTuple>, n_pos: nat, n_tex: nat, n_norm: nat) -> bool {
    forall|i: int|
        0 <= i < ts.len() ==> {
            &&& (#[trigger] ts[i]).0 < n_pos
            &&& ts[i].1 matches Some(x) ==> x < n_tex
            &&& ts[i].2 matches Some(x) ==> x < n_norm
        }
}

/// The vertex data of a group in one interleaved buffer (see
/// `corner_values`), with three indices per polygon counting up from zero.
pub fn interleaved_vertex_data<T: Copy>(
    obj_group: &Group,
    all_pos: &Vec<[T; 3]>,
    all_norm: &Vec<[T; 3]>,
    all_tex: &Vec<[T; 2]>,
) -> (r: (Vec<T>, Vec<u32>))
    requires
        corners_in_range(group_tuples(obj_group), all_pos@.len(), all_tex@.len(), all_norm@.len()),
        3 * obj_group.polys@.len() <= u32::MAX,
    ensures
        r.0@ == interleaved(group_tuples(obj_group), all_pos@, all_norm@, all_tex@),
        r.1@ == Seq::new(3 * obj_group.polys@.len(), |i: int| i as u32),
{
    let ghost polys = obj_group.polys@;
    let ghost ts = group_tuples(obj_group);
    let mut pnt: Vec<T> = Vec::new();
    let mut inds: Vec<u32> = Vec::new();
    let mut index: u32 = 0;
    let mut p: usize = 0;
    assert(polys.take(0) =~= Seq::<SimplePolygon>::empty());
    while p < obj_group.polys.len()
        invariant
            polys == obj_group.polys@,
            ts == poly_tuples(polys),
            p <= polys.len(),
            3 * polys.len() <= u32::MAX,
            corners_in_range(ts, all_pos@.len(), all_tex@.len(), all_norm@.len()),
            index == 3 * p,
            inds@ == Seq::new(3 * p as nat, |i: int| i as u32),
            pnt@ == interleaved(poly_tuples(polys.take(p as int)), all_pos@, all_norm@, all_tex@),
        decreases polys.len() - p,
    {
        let poly = &obj_group.polys[p];
        let ghost before = poly_tuples(polys.take(p as int));
        proof {
            lemma_poly_tuples_take(polys, p as int);
            lemma_poly_tuples_prefix(polys, p as int + 1);
            assert(polys.take(polys.len() as int) =~= polys);
        }
        let mut k: usize = 0;
        assert(before + poly.0@.take(0) =~= before);
        while k < poly.0.len()
            invariant
                polys == obj_group.polys@,
                p < polys.len(),
                *poly == polys[p as int],
                before == poly_tuples(polys.take(p as int)),
                poly_tuples(polys.take(p + 1)) == before + poly.0@,
                ts == poly_tuples(polys),
                ts.take(poly_tuples(polys.take(p + 1)).len() as int) == poly_tuples(polys.take(p + 1)),
                poly_tuples(polys.take(p + 1)).len() <= ts.len(),
                corners_in_range(ts, all_pos@.len(), all_tex@.len(), all_norm@.len()),
                k <= poly.0@.len(),
                pnt@ == interleaved(before + poly.0@.take(k as int), all_pos@, all_norm@, all_tex@),
            decreases poly.0@.len() - k,
        {
            let vertex = poly.0[k];
            proof {
                let j = before.len() + k;
                let pre = poly_tuples(polys.take(p + 1));
                assert(ts.take(pre.len() as int)[j] == ts[j]);
                assert(ts[j] == (before + poly.0@)[j]);
                assert(ts[j] == vertex);
            }
            extend_from_array(&mut pnt, all_pos[vertex.0]);
            if let Some(norm_index) = vertex.2 {
                extend_from_array(&mut pnt, all_norm[norm_index]);
            }
            if let Some(tex_index) = vertex.1 {
                extend_from_array(&mut pnt, all_tex[tex_index]);
            }
            proof {
                let s = before + poly.0@.take(k as int);
                assert((before + poly.0@.take(k + 1)).drop_last() =~= s);
                assert((before + poly.0@.take(k + 1)).last() == vertex);
            }
            k = k + 1;
        }
        assert(poly.0@.take(poly.0@.len() as int) =~= poly.0@);
        inds.push(index);
        inds.push(index + 1);
        inds.push(index + 2);
        index = index + 3;
        p = p + 1;
        assert(inds@ =~= Seq::new(3 * p as nat, |i: int| i as u32));
    }
    assert(polys.take(polys.len() as int) =~= polys);
    (pnt, inds)
}

/// The corners of the first polygons are a prefix of all the corners.
proof fn lemma_poly_tuples_prefix(polys: Seq<SimplePolygon>, p: int)
    requires
        0 <= p <= polys.len(),
    ensures
        poly_tuples(polys.take(p)).len() <= poly_tuples(polys).len(),
        poly_tuples(polys).take(poly_tuples(polys.take(p)).len() as int) == poly_tuples(polys.take(p)),
    decreases polys.len() - p,
{
    if p == polys.len() {
        assert(polys.take(p) =~= polys);
        assert(poly_tuples(polys).take(poly_tuples(polys).len() as int) =~= poly_tuples(polys));
    } else {
        lemma_poly_tuples_prefix(polys, p + 1);
        lemma_poly_tuples_take(polys, p);
        let a = poly_tuples(polys.take(p));
        let b = poly_tuples(polys.take(p + 1));
        assert(b.take(a.len() as int) =~= a);
        assert(poly_tuples(polys).take(a.len() as int) =~= poly_tuples(polys).take(b.len() as int).take(
            a.len() as int,
        ));
    }
}

/// Value `j` of the entries of `table` at `idx`, flattened, is value
/// `j % N` of the entry at index `j / N`.
proof fn lemma_gathered_at<T, const N: usize>(table: Seq<[T; N]>, idx: Seq<usize>, j: int)
    requires
        forall|i: int| 0 <= i < idx.len() ==> (#[trigger] idx[i]) < table.len(),
        0 <= j < N * idx.len(),
    ensures
        gathered(table, idx).len() == N * idx.len(),
        gathered(table, idx)[j] == table[idx[j / (N as int)] as int]@[j % (N as int)],
    decreases idx.len(),
{
    assert forall|i: int| 0 <= i < table.len() implies (#[trigger] table[i])@.len() == N by {}
    lemma_gathered_len(table, idx);
    let p = idx.drop_last();
    let n = N as int;
    let plen = p.len() as int;
    assert(n > 0) by (nonlinear_arith)
        requires
            0 <= j < n * idx.len(),
            n >= 0,
    ;
    lemma_gathered_len(table, p);
    assert(n * idx.len() == n * plen + n) by (nonlinear_arith)
        requires
            idx.len() == plen + 1,
    ;
    if j < n * plen {
        lemma_gathered_at(table, p, j);
        assert(j / n < plen) by (nonlinear_arith)
            requires
                0 <= j < n * plen,
                n > 0,
        ;
        assert(0 <= j / n) by (nonlinear_arith)
            requires
                0 <= j,
                n > 0,
        ;
        assert(p[j / n] == idx[j / n]);
    } else {
        let r = j - n * plen;
        assert(0 <= r < n);
        assert(j / n == plen && j % n == r) by (nonlinear_arith)
            requires
                j == n * plen + r,
                0 <= r < n,
                plen >= 0,
        ;
        assert(gathered(table, idx)[j] == table[idx.last() as int]@[r]);
    }
}

/// Where every corner of an object's first group has a texture coordinate,
/// the mesh has two texture-coordinate values per corner, those of the
/// corner's entry in the texture table, whether or not the corners have
/// normals; where some corner has none, it has no texture coordinates.
pub proof fn law_texture_coordinates_follow_texture_indices<T>(
    m: &MeshData<T>,
    o: &Object,
    pos: Seq<[T; 3]>,
    tex: Seq<[T; 2]>,
    norm: Seq<[T; 3]>,
)
    requires
        loadable(o, pos.len(), tex.len(), norm.len()),
        mesh_of(m, o, pos, tex, norm),
    ensures
        (forall|i: int| 0 <= i < group_tuples(&o.groups@[0]).len() ==> (#[trigger] group_tuples(&o.groups@[0])[i]).1 is Some) ==> {
            &&& m.texture_coordinates@.len() == 2 * group_tuples(&o.groups@[0]).len()
            &&& forall|j: int|
                0 <= j < m.texture_coordinates@.len() ==> #[trigger] m.texture_coordinates@[j] == tex[group_tuples(
                    &o.groups@[0],
                )[j / 2].1->0 as int]@[j % 2]
        },
        (exists|i: int| 0 <= i < group_tuples(&o.groups@[0]).len() && (#[trigger] group_tuples(&o.groups@[0])[i]).1 is None) ==> m.texture_coordinates@.len() == 0,
{
    let ts = group_tuples(&o.groups@[0]);
    if all_textured(ts) {
        let idx = texture_indices(ts);
        assert forall|i: int| 0 <= i < idx.len() implies (#[trigger] idx[i]) < tex.len() by {
            assert(ts[i].1->0 < tex.len());
        }
        lemma_gathered_len(tex, idx);
        assert forall|j: int| 0 <= j < m.texture_coordinates@.len() implies #[trigger] m.texture_coordinates@[j]
            == tex[ts[j / 2].1->0 as int]@[j % 2] by {
            lemma_gathered_at(tex, idx, j);
            assert(0 <= j / 2 < ts.len());
        }
    }
}

/// The mesh has three position values per corner of the object's first
/// group, those of the corner's entry in the position table; it has normals
/// exactly where every corner has a normal index, and then three values per
/// corner, those of the corner's entry in the normal table.
pub proof fn law_positions_and_normals_follow_indices<T>(
    m: &MeshData<T>,
    o: &Object,
    pos: Seq<[T; 3]>,
    tex: Seq<[T; 2]>,
    norm: Seq<[T; 3]>,
)
    requires
        loadable(o, pos.len(), tex.len(), norm.len()),
        mesh_of(m, o, pos, tex, norm),
    ensures
        m.positions@.len() == 3 * group_tuples(&o.groups@[0]).len(),
        forall|j: int|
            0 <= j < m.positions@.len() ==> #[trigger] m.positions@[j] == pos[group_tuples(&o.groups@[0])[j
                / 3].0 as int]@[j % 3],
        m.normals is Some <==> forall|i: int|
            0 <= i < group_tuples(&o.groups@[0]).len() ==> (#[trigger] group_tuples(&o.groups@[0])[i]).2 is Some,
        m.normals matches Some(n) ==> n@.len() == 3 * group_tuples(&o.groups@[0]).len() && forall|j: int|
            0 <= j < n@.len() ==> #[trigger] n@[j] == norm[group_tuples(&o.groups@[0])[j / 3].2->0 as int]@[j
                % 3],
{
    let ts = group_tuples(&o.groups@[0]);
    let pidx = position_indices(ts);
    assert forall|i: int| 0 <= i < pidx.len() implies (#[trigger] pidx[i]) < pos.len() by {
        assert(ts[i].0 < pos.len());
    }
    lemma_gathered_len(pos, pidx);
    assert forall|j: int| 0 <= j < m.positions@.len() implies #[trigger] m.positions@[j] == pos[ts[j
        / 3].0 as int]@[j % 3] by {
        lemma_gathered_at(pos, pidx, j);
        assert(0 <= j / 3 < ts.len());
    }
    if all_normaled(ts) {
        let nidx = normal_indices(ts);
        assert forall|i: int| 0 <= i < nidx.len() implies (#[trigger] nidx[i]) < norm.len() by {
            assert(ts[i].2->0 < norm.len());
        }
        lemma_gathered_len(norm, nidx);
        let n = m.normals->0;
        assert forall|j: int| 0 <= j < n@.len() implies #[trigger] n@[j] == norm[ts[j / 3].2->0 as int]@[j
            % 3] by {
            lemma_gathered_at(norm, nidx, j);
            assert(0 <= j / 3 < ts.len());
        }
    }
}

/// The vertex data of an object has three position values per corner of
/// its first group; its normals, where there are any, are as many as its
/// position values; its texture coordinates, where there are any, are two
/// per corner; and it has one index per position value (up to `u32`).
pub proof fn law_mesh_sizes<T>(m: &MeshData<T>, o: &Object, pos: Seq<[T; 3]>, tex: Seq<[T; 2]>, norm: Seq<[T; 3]>)
    requires
        loadable(o, pos.len(), tex.len(), norm.len()),
        mesh_of(m, o, pos, tex, norm),
    ensures
        m.positions@.len() == 3 * group_tuples(&o.groups@[0]).len(),
        m.normals matches Some(n) ==> n@.len() == m.positions@.len(),
        m.texture_coordinates@.len() > 0 ==> m.texture_coordinates@.len() == 2 * group_tuples(
            &o.groups@[0],
        ).len(),
        m.positions@.len() <= u32::MAX ==> m.indices@.len() == m.positions@.len(),
{
    let ts = group_tuples(&o.groups@[0]);
    if all_normaled(ts) {
        assert forall|i: int| 0 <= i < normal_indices(ts).len() implies (#[trigger] normal_indices(ts)[i])
            < norm.len() by {
            assert(ts[i].2->0 < norm.len());
        }
        assert forall|i: int| 0 <= i < norm.len() implies (#[trigger] norm[i])@.len() == 3 by {}
        lemma_gathered_len(norm, normal_indices(ts));
    }
    if all_textured(ts) {
        assert forall|i: int| 0 <= i < texture_indices(ts).len() implies (#[trigger] texture_indices(ts)[i])
            < tex.len() by {
            assert(ts[i].1->0 < tex.len());
        }
        assert forall|i: int| 0 <= i < tex.len() implies (#[trigger] tex[i])@.len() == 2 by {}
        lemma_gathered_len(tex, texture_indices(ts));
    }
}

} // verus!
