use vstd::prelude::*;

verus! {

/// The number of vertices that the first `k` meshes hold together.
pub open spec fn vertex_offset(counts: Seq<usize>, k: int) -> int
    decreases k,
{
    if k <= 0 || k > counts.len() {
        0
    } else {
        vertex_offset(counts, k - 1) + counts[k - 1]
    }
}

/// `indices` with `offset` added to each, the offset taken modulo 65536 as
/// a conversion to `u16` takes it.
pub open spec fn shift_indices(indices: Seq<u16>, offset: int) -> Seq<u16> {
    indices.map_values(|i: u16| (i + offset % 65536) as u16)
}

/// Whether adding `offset` (modulo 65536) to every index of `indices` stays
/// below 65536.
pub open spec fn shift_fits(indices: Seq<u16>, offset: int) -> bool {
    forall|j: int| 0 <= j < indices.len() ==> #[trigger] indices[j] + offset % 65536 < 65536
}

/// The indices of the first `k` meshes, each mesh's indices shifted by the
/// number of vertices of the meshes before it.
pub open spec fn spec_meshes_indices(meshes: Seq<Seq<u16>>, counts: Seq<usize>, k: int) -> Seq<u16>
    decreases k,
{
    if k <= 0 || k > meshes.len() {
        Seq::empty()
    } else {
        spec_meshes_indices(meshes, counts, k - 1) + shift_indices(
            meshes[k - 1],
            vertex_offset(counts, k - 1),
        )
    }
}

/// The whole index buffer: the meshes' shifted indices, then the floor's
/// indices shifted by the number of vertices of all meshes.
pub open spec fn spec_index_buffer(meshes: Seq<Seq<u16>>, counts: Seq<usize>, floor: Seq<u16>) -> Seq<u16> {
    spec_meshes_indices(meshes, counts, meshes.len() as int) + shift_indices(
        floor,
        vertex_offset(counts, counts.len() as int),
    )
}

/// What lets the buffer be built with no overflow: one vertex count per
/// mesh, a total vertex count that fits in `usize`, and every shifted index
/// below 65536.
pub open spec fn index_buffer_fits(meshes: Seq<Seq<u16>>, counts: Seq<usize>, floor: Seq<u16>) -> bool {
    &&& meshes.len() == counts.len()
    &&& vertex_offset(counts, counts.len() as int) <= usize::MAX
    &&& forall|k: int|
        0 <= k < meshes.len() ==> shift_fits(#[trigger] meshes[k], vertex_offset(counts, k))
    &&& shift_fits(floor, vertex_offset(counts, counts.len() as int))
}

proof fn lemma_offset_monotone(counts: Seq<usize>, a: int, b: int)
    requires
        0 <= a <= b <= counts.len(),
    ensures
        0 <= vertex_offset(counts, a) <= vertex_offset(counts, b),
    decreases b,
{
    if b > 0 {
        if a < b {
            lemma_offset_monotone(counts, a, b - 1);
        } else {
            lemma_offset_monotone(counts, 0, b - 1);
        }
    }
}

/// Appends `indices`, each shifted by `offset` modulo 65536, to `buffer`.
fn push_shifted(buffer: &mut Vec<u16>, indices: &Vec<u16>, offset: usize)
    requires
        shift_fits(indices@, offset as int),
    ensures
        final(buffer)@ == old(buffer)@ + shift_indices(indices@, offset as int),
{
    let ghost start = buffer@;
    let shift = (offset % 65536) as u16;
    let mut j: usize = 0;
    while j < indices.len()
        invariant
            j <= indices@.len(),
            shift == offset % 65536,
            shift_fits(indices@, offset as int),
            buffer@ == start + shift_indices(indices@, offset as int).take(j as int),
        decreases indices@.len() - j,
    {
        assert(indices@[j as int] + offset % 65536 < 65536);
        buffer.push(indices[j] + shift);
        proof {
            assert(shift_indices(indices@, offset as int).take(j + 1) =~= shift_indices(
                indices@,
                offset as int,
            ).take(j as int).push(shift_indices(indices@, offset as int)[j as int]));
        }
        j += 1;
    }
    proof {
        assert(shift_indices(indices@, offset as int).take(j as int) =~= shift_indices(
            indices@,
            offset as int,
        ));
    }
}

/// Whether adding `offset` (modulo 65536) to every index of `indices`
/// stays below 65536.
fn shifts_fit(indices: &Vec<u16>, offset: usize) -> (r: bool)
    ensures
        r == shift_fits(indices@, offset as int),
{
    let shift: u32 = (offset % 65536) as u32;
    let mut j: usize = 0;
    while j < indices.len()
        invariant
            j <= indices@.len(),
            shift == offset % 65536,
            forall|i: int| 0 <= i < j ==> #[trigger] indices@[i] + offset % 65536 < 65536,
        decreases indices@.len() - j,
    {
        if indices[j] as u32 + shift >= 65536 {
            return false;
        }
        j += 1;
    }
    true
}

/// Whether `index_buffer_data` can lay out these meshes: one vertex count
/// per mesh, a total vertex count that fits in `usize`, and every shifted
/// index below 65536. This is the test that `index_buffer_data` requires.
pub fn fits_index_buffer(
    mesh_indices: &Vec<Vec<u16>>,
    vertex_counts: &Vec<usize>,
    floor_indices: &Vec<u16>,
) -> (r: bool)
    ensures
        r == index_buffer_fits(
            mesh_indices@.map_values(|v: Vec<u16>| v@),
            vertex_counts@,
            floor_indices@,
        ),
{
    let ghost meshes = mesh_indices@.map_values(|v: Vec<u16>| v@);
    let ghost counts = vertex_counts@;
    if mesh_indices.len() != vertex_counts.len() {
        return false;
    }
    let mut offset: usize = 0;
    let mut k: usize = 0;
    while k < mesh_indices.len()
        invariant
            meshes == mesh_indices@.map_values(|v: Vec<u16>| v@),
            counts == vertex_counts@,
            meshes.len() == counts.len(),
            k <= meshes.len(),
            offset == vertex_offset(counts, k as int),
            forall|j: int| 0 <= j < k ==> shift_fits(#[trigger] meshes[j], vertex_offset(counts, j)),
        decreases meshes.len() - k,
    {
        assert(meshes[k as int] == mesh_indices@[k as int]@);
        if !shifts_fit(&mesh_indices[k], offset) {
            return false;
        }
        match offset.checked_add(vertex_counts[k]) {
            Some(next) => {
                offset = next;
            },
            None => {
                proof {
                    lemma_offset_monotone(counts, k + 1, counts.len() as int);
                }
                return false;
            },
        }
        k += 1;
    }
    shifts_fit(floor_indices, offset)
}

/// Lays the index lists of several meshes, and then the floor's, one after
/// another in one buffer. Each mesh's indices are shifted by the number of
/// vertices of the meshes before it (`vertex_counts` holds each mesh's
/// vertex count, in the same order), so that they point at that mesh's own
/// vertices in the matching vertex buffer; the floor's are shifted by the
/// count of all meshes. The shift goes through `u16`, so it is taken modulo
/// 65536.
pub fn index_buffer_data(
    mesh_indices: &Vec<Vec<u16>>,
    vertex_counts: &Vec<usize>,
    floor_indices: &Vec<u16>,
) -> (buffer: Vec<u16>)
    requires
        index_buffer_fits(mesh_indices@.map_values(|v: Vec<u16>| v@), vertex_counts@, floor_indices@),
    ensures
        buffer@ == spec_index_buffer(
            mesh_indices@.map_values(|v: Vec<u16>| v@),
            vertex_counts@,
            floor_indices@,
        ),
{
    let ghost meshes = mesh_indices@.map_values(|v: Vec<u16>| v@);
    let ghost counts = vertex_counts@;
    let mut buffer: Vec<u16> = Vec::new();
    let mut vertices_count: usize = 0;
    let mut k: usize = 0;
    while k < mesh_indices.len()
        invariant
            meshes == mesh_indices@.map_values(|v: Vec<u16>| v@),
            counts == vertex_counts@,
            index_buffer_fits(meshes, counts, floor_indices@),
            k <= mesh_indices@.len(),
            vertices_count == vertex_offset(counts, k as int),
            buffer@ == spec_meshes_indices(meshes, counts, k as int),
        decreases mesh_indices@.len() - k,
    {
        assert(meshes[k as int] == mesh_indices@[k as int]@);
        assert(shift_fits(meshes[k as int], vertex_offset(counts, k as int)));
        push_shifted(&mut buffer, &mesh_indices[k], vertices_count);
        proof {
            lemma_offset_monotone(counts, k + 1, counts.len() as int);
        }
        vertices_count = vertices_count + vertex_counts[k];
        k += 1;
    }
    push_shifted(&mut buffer, floor_indices, vertices_count);
    buffer
}

/// An index is shifted into the range of its own mesh's vertices: when
/// every index of mesh `k` is below that mesh's vertex count and all the
/// meshes together hold fewer than 65536 vertices, the shifted indices of
/// mesh `k` lie between the vertex counts of the meshes before it and that
/// count plus its own.
pub proof fn lemma_indices_reference_own_vertices(meshes: Seq<Seq<u16>>, counts: Seq<usize>, k: int)
    requires
        meshes.len() == counts.len(),
        0 <= k < meshes.len(),
        vertex_offset(counts, counts.len() as int) < 65536,
        forall|j: int| 0 <= j < meshes[k].len() ==> #[trigger] meshes[k][j] < counts[k],
    ensures
        forall|j: int|
            0 <= j < meshes[k].len() ==> vertex_offset(counts, k) <= #[trigger] shift_indices(
                meshes[k],
                vertex_offset(counts, k),
            )[j] < vertex_offset(counts, k + 1),
{
    lemma_offset_monotone(counts, k + 1, counts.len() as int);
    lemma_offset_monotone(counts, 0, k);
    let off = vertex_offset(counts, k);
    assert(off % 65536 == off) by {
        vstd::arithmetic::div_mod::lemma_small_mod(off as nat, 65536);
    }
}

/// The part of the buffer laid out for the first `k` meshes holds each of
/// their indices once: its length is the sum of their index counts. (The
/// floor's indices come after, one for one.)
pub proof fn lemma_index_buffer_len(meshes: Seq<Seq<u16>>, counts: Seq<usize>, k: int)
    requires
        0 <= k <= meshes.len(),
    ensures
        spec_meshes_indices(meshes, counts, k).len() == meshes.take(k).map_values(
            |m: Seq<u16>| m.len() as int,
        ).fold_left(0int, |acc: int, n: int| acc + n),
    decreases k,
{
    if k > 0 {
        lemma_index_buffer_len(meshes, counts, k - 1);
        let lens = meshes.take(k).map_values(|m: Seq<u16>| m.len() as int);
        assert(meshes.take(k - 1).map_values(|m: Seq<u16>| m.len() as int) =~= lens.drop_last());
    }
}

/// The sum of `xs`.
pub open spec fn total(xs: Seq<int>) -> int {
    xs.fold_left(0int, |acc: int, n: int| acc + n)
}

/// The vertex counts of the first `k` meshes add up to their offset.
proof fn lemma_offset_is_total(counts: Seq<usize>, k: int)
    requires
        0 <= k <= counts.len(),
    ensures
        vertex_offset(counts, k) == total(counts.take(k).map_values(|c: usize| c as int)),
    decreases k,
{
    if k > 0 {
        lemma_offset_is_total(counts, k - 1);
        let all = counts.take(k).map_values(|c: usize| c as int);
        assert(counts.take(k - 1).map_values(|c: usize| c as int) =~= all.drop_last());
    }
}

/// The indices laid out for the first `m` meshes start the indices laid out
/// for the first `n`, for `m <= n`.
proof fn lemma_meshes_prefix(meshes: Seq<Seq<u16>>, counts: Seq<usize>, m: int, n: int)
    requires
        0 <= m <= n <= meshes.len(),
    ensures
        spec_meshes_indices(meshes, counts, m).len() <= spec_meshes_indices(meshes, counts, n).len(),
        forall|i: int|
            0 <= i < spec_meshes_indices(meshes, counts, m).len() ==> spec_meshes_indices(
                meshes,
                counts,
                n,
            )[i] == #[trigger] spec_meshes_indices(meshes, counts, m)[i],
    decreases n,
{
    if n > m {
        lemma_meshes_prefix(meshes, counts, m, n - 1);
    }
}

/// Where each mesh's indices land in the index buffer, and what they
/// become: index `j` of mesh `k` sits after all the indices of the meshes
/// before it, and is that index plus the vertex counts of all the meshes
/// before `k` (taken modulo 65536, as the conversion to `u16` takes it), so
/// that it points at mesh `k`'s own vertices in the vertex buffer.
pub proof fn lemma_index_buffer_layout(
    meshes: Seq<Seq<u16>>,
    counts: Seq<usize>,
    floor: Seq<u16>,
    k: int,
    j: int,
)
    requires
        meshes.len() == counts.len(),
        0 <= k < meshes.len(),
        0 <= j < meshes[k].len(),
    ensures
        ({
            let start = total(meshes.take(k).map_values(|m: Seq<u16>| m.len() as int));
            let offset = total(counts.take(k).map_values(|c: usize| c as int));
            &&& 0 <= start + j < spec_index_buffer(meshes, counts, floor).len()
            &&& spec_index_buffer(meshes, counts, floor)[start + j] == (meshes[k][j] + offset
                % 65536) as u16
        }),
{
    lemma_index_buffer_len(meshes, counts, k);
    lemma_offset_is_total(counts, k);
    lemma_meshes_prefix(meshes, counts, k + 1, meshes.len() as int);
    let before = spec_meshes_indices(meshes, counts, k);
    let through = spec_meshes_indices(meshes, counts, k + 1);
    let all = spec_meshes_indices(meshes, counts, meshes.len() as int);
    assert(through == before + shift_indices(meshes[k], vertex_offset(counts, k)));
    let i = before.len() + j;
    assert(through[i] == shift_indices(meshes[k], vertex_offset(counts, k))[j]);
    assert(all[i] == through[i]);
    let buffer = spec_index_buffer(meshes, counts, floor);
    assert(buffer[i] == all[i]);
}

/// The floor's indices come last in the index buffer, each shifted by the
/// vertex counts of all the meshes (modulo 65536), to point past every
/// mesh's vertices at the floor's.
pub proof fn lemma_index_buffer_floor(meshes: Seq<Seq<u16>>, counts: Seq<usize>, floor: Seq<u16>, j: int)
    requires
        meshes.len() == counts.len(),
        0 <= j < floor.len(),
    ensures
        ({
            let start = total(meshes.map_values(|m: Seq<u16>| m.len() as int));
            let offset = total(counts.map_values(|c: usize| c as int));
            &&& spec_index_buffer(meshes, counts, floor).len() == start + floor.len()
            &&& spec_index_buffer(meshes, counts, floor)[start + j] == (floor[j] + offset % 65536) as u16
        }),
{
    let n = meshes.len() as int;
    lemma_index_buffer_len(meshes, counts, n);
    lemma_offset_is_total(counts, n);
    assert(meshes.take(n) =~= meshes);
    assert(counts.take(n) =~= counts);
}

} // verus!
