use vstd::prelude::*;

verus! {

/// One triangle: three vertex indices and the material id it is drawn with.
#[derive(Clone, Copy, Debug, PartialEq, Eq, Structural)]
pub struct Triangle {
    pub vertex1: u16,
    pub vertex2: u16,
    pub vertex3: u16,
    pub material_id: u16,
}

/// The triangles of one material, over a compacted vertex numbering.
#[derive(Clone, Debug)]
pub struct MeshPart {
    /// The geometry-wide indices of the vertices kept, in increasing order.
    pub vertices: Vec<u32>,
    /// Three entries per triangle, numbered into `vertices`.
    pub indices: Vec<u16>,
}

/// The material a triangle is drawn with: the position, among the material
/// chunks, that its material id stands for. An id past the end of the map
/// stands for no material.
pub open spec fn material_of(positions: Seq<u32>, id: u16) -> int {
    if (id as int) < positions.len() {
        positions[id as int] as int
    } else {
        -1
    }
}

/// The vertex indices of the first `n` triangles that are drawn with
/// material `m`, three per triangle, in order.
pub open spec fn selected(tris: Seq<Triangle>, positions: Seq<u32>, m: int, n: int) -> Seq<u16>
    decreases n,
{
    if n <= 0 {
        Seq::empty()
    } else {
        let t = tris[n - 1];
        selected(tris, positions, m, n - 1) + if material_of(positions, t.material_id) == m {
            seq![t.vertex1, t.vertex2, t.vertex3]
        } else {
            Seq::empty()
        }
    }
}

/// Which of `nv` vertices the index list `sel` refers to.
pub open spec fn used_flags(sel: Seq<u16>, nv: nat) -> Seq<bool> {
    Seq::new(nv, |i: int| refers_to(sel, i))
}

/// Some entry of `sel` is `i`.
pub open spec fn refers_to(sel: Seq<u16>, i: int) -> bool {
    exists|j: int| 0 <= j < sel.len() && sel[j] as int == i
}

/// The positions among the first `n` flags that are set, in increasing order.
pub open spec fn kept(used: Seq<bool>, n: int) -> Seq<u32>
    decreases n,
{
    if n <= 0 {
        Seq::empty()
    } else if used[n - 1] {
        kept(used, n - 1).push((n - 1) as u32)
    } else {
        kept(used, n - 1)
    }
}

/// The new number of old vertex `x`: how many kept vertices come before it.
pub open spec fn rank(used: Seq<bool>, x: int) -> int {
    kept(used, x).len() as int
}

/// Every triangle index is a valid vertex index.
pub open spec fn indices_valid(tris: Seq<Triangle>, nv: nat) -> bool {
    forall|i: int|
        0 <= i < tris.len() ==> (#[trigger] tris[i]).vertex1 < nv && tris[i].vertex2 < nv
            && tris[i].vertex3 < nv
}

/// The vertices of `nv` that the triangles of material `m` use, in increasing order.
pub open spec fn part_vertices(tris: Seq<Triangle>, positions: Seq<u32>, m: int, nv: nat) -> Seq<u32> {
    kept(used_flags(selected(tris, positions, m, tris.len() as int), nv), nv as int)
}

/// The triangles of material `m`, in stored order, renumbered into
/// `part_vertices`.
pub open spec fn part_indices(tris: Seq<Triangle>, positions: Seq<u32>, m: int, nv: nat) -> Seq<u16> {
    let sel = selected(tris, positions, m, tris.len() as int);
    Seq::new(sel.len(), |j: int| rank(used_flags(sel, nv), sel[j] as int) as u16)
}

/// `p` is the part of material `m`.
pub open spec fn part_of(p: MeshPart, tris: Seq<Triangle>, positions: Seq<u32>, m: int, nv: nat) -> bool {
    &&& p.vertices@ == part_vertices(tris, positions, m, nv)
    &&& p.indices@ == part_indices(tris, positions, m, nv)
}

pub proof fn lemma_kept_len_le(used: Seq<bool>, n: int)
    requires
        0 <= n,
    ensures
        kept(used, n).len() <= n,
    decreases n,
{
    if n > 0 {
        lemma_kept_len_le(used, n - 1);
    }
}

proof fn lemma_kept_monotone(used: Seq<bool>, a: int, b: int)
    requires
        0 <= a <= b,
    ensures
        kept(used, a).len() <= kept(used, b).len(),
    decreases b - a,
{
    if a < b {
        lemma_kept_monotone(used, a, b - 1);
    }
}

pub proof fn lemma_kept_bounded(used: Seq<bool>, n: int, k: int)
    requires
        0 <= k < kept(used, n).len(),
    ensures
        kept(used, n)[k] < n,
    decreases n,
{
    if n > 0 && !(used[n - 1] && k == kept(used, n - 1).len()) {
        lemma_kept_bounded(used, n - 1, k);
    }
}

pub proof fn lemma_selected_in_range(tris: Seq<Triangle>, positions: Seq<u32>, m: int, n: int, nv: nat)
    requires
        0 <= n <= tris.len(),
        indices_valid(tris, nv),
    ensures
        forall|j: int| 0 <= j < selected(tris, positions, m, n).len()
            ==> (#[trigger] selected(tris, positions, m, n)[j]) < nv,
    decreases n,
{
    if n > 0 {
        lemma_selected_in_range(tris, positions, m, n - 1, nv);
        let t = tris[n - 1];
        assert(t.vertex1 < nv && t.vertex2 < nv && t.vertex3 < nv);
        let prev = selected(tris, positions, m, n - 1);
        let s = selected(tris, positions, m, n);
        assert forall|j: int| 0 <= j < s.len() implies (#[trigger] s[j]) < nv by {
            if j < prev.len() {
                assert(s[j] == prev[j]);
            }
        }
    }
}

/// Whatever the material, every renumbered index of its part points into the
/// part's own vertex list.
pub proof fn lemma_part_indices_in_range(
    p: MeshPart,
    tris: Seq<Triangle>,
    positions: Seq<u32>,
    m: int,
    nv: nat,
)
    requires
        indices_valid(tris, nv),
        part_of(p, tris, positions, m, nv),
    ensures
        forall|j: int| 0 <= j < p.indices@.len() ==> (#[trigger] p.indices@[j] as int) < p.vertices@.len(),
{
    let sel = selected(tris, positions, m, tris.len() as int);
    let used = used_flags(sel, nv);
    lemma_selected_in_range(tris, positions, m, tris.len() as int, nv);
    assert forall|j: int| 0 <= j < p.indices@.len() implies (#[trigger] p.indices@[j] as int)
        < p.vertices@.len() by {
        let x = sel[j] as int;
        lemma_kept_len_le(used, x);
        assert(refers_to(sel, x));
        assert(used[x]);
        assert(kept(used, x + 1).len() == kept(used, x).len() + 1);
        lemma_kept_monotone(used, x + 1, nv as int);
    }
}

/// The material chunk position that material id `id` stands for, if any.
pub fn material_of_id(positions: &Vec<u32>, id: u16) -> (r: Option<u32>)
    ensures
        match r {
            Some(p) => material_of(positions@, id) == p as int,
            None => material_of(positions@, id) == -1,
        },
{
    if (id as usize) < positions.len() {
        Some(positions[id as usize])
    } else {
        None
    }
}

/// The vertex indices of the triangles drawn with material `m`.
fn select_indices(tris: &Vec<Triangle>, positions: &Vec<u32>, m: u64) -> (sel: Vec<u16>)
    ensures
        sel@ == selected(tris@, positions@, m as int, tris@.len() as int),
{
    let mut sel: Vec<u16> = Vec::new();
    let mut t: usize = 0;
    while t < tris.len()
        invariant
            t <= tris@.len(),
            sel@ == selected(tris@, positions@, m as int, t as int),
        decreases tris@.len() - t,
    {
        let tri = tris[t];
        let hit = match material_of_id(positions, tri.material_id) {
            Some(p) => p as u64 == m,
            None => false,
        };
        if hit {
            sel.push(tri.vertex1);
            sel.push(tri.vertex2);
            sel.push(tri.vertex3);
        }
        t = t + 1;
        assert(sel@ =~= selected(tris@, positions@, m as int, t as int));
    }
    sel
}

/// Marks which of `nv` vertices the index list refers to.
fn mark_used(sel: &Vec<u16>, nv: u32) -> (used: Vec<bool>)
    requires
        forall|j: int| 0 <= j < sel@.len() ==> (#[trigger] sel@[j]) < nv,
    ensures
        used@ == used_flags(sel@, nv as nat),
{
    let mut used: Vec<bool> = Vec::new();
    let mut i: u32 = 0;
    while i < nv
        invariant
            i <= nv,
            used@ == Seq::new(i as nat, |k: int| false),
        decreases nv - i,
    {
        used.push(false);
        i = i + 1;
        assert(used@ =~= Seq::new(i as nat, |k: int| false));
    }
    let mut j: usize = 0;
    while j < sel.len()
        invariant
            j <= sel@.len(),
            forall|k: int| 0 <= k < sel@.len() ==> (#[trigger] sel@[k]) < nv,
            used@ == used_flags(sel@.subrange(0, j as int), nv as nat),
        decreases sel@.len() - j,
    {
        let x = sel[j];
        used.set(x as usize, true);
        let ghost before = sel@.subrange(0, j as int);
        let ghost after = sel@.subrange(0, j + 1);
        assert forall|i: int| 0 <= i < nv implies #[trigger] refers_to(after, i) == (refers_to(
            before,
            i,
        ) || i == x as int) by {
            if refers_to(after, i) {
                let k = choose|k: int| 0 <= k < after.len() && after[k] as int == i;
                if k < j {
                    assert(before[k] == after[k]);
                }
            }
            if refers_to(before, i) {
                let k = choose|k: int| 0 <= k < before.len() && before[k] as int == i;
                assert(after[k] == before[k]);
            }
            if i == x as int {
                assert(after[j as int] == x);
            }
        }
        j = j + 1;
        assert(used@ =~= used_flags(sel@.subrange(0, j as int), nv as nat));
    }
    assert(sel@.subrange(0, sel@.len() as int) =~= sel@);
    used
}

/// Splits off the triangles of material `m` and renumbers the vertices they
/// use, keeping their order, so that the part holds only those vertices.
pub fn partition(tris: &Vec<Triangle>, positions: &Vec<u32>, m: u64, nv: u32) -> (p: MeshPart)
    requires
        indices_valid(tris@, nv as nat),
    ensures
        part_of(p, tris@, positions@, m as int, nv as nat),
{
    let sel = select_indices(tris, positions, m);
    proof {
        lemma_selected_in_range(tris@, positions@, m as int, tris@.len() as int, nv as nat);
    }
    let used = mark_used(&sel, nv);
    let mut vertices: Vec<u32> = Vec::new();
    let mut new_index: Vec<u32> = Vec::new();
    let mut cnt: u32 = 0;
    let mut i: u32 = 0;
    while i < nv
        invariant
            i <= nv,
            used@.len() == nv,
            vertices@ == kept(used@, i as int),
            cnt as int == kept(used@, i as int).len(),
            new_index@.len() == i,
            forall|k: int| 0 <= k < i ==> #[trigger] new_index@[k] as int == rank(used@, k),
        decreases nv - i,
    {
        proof {
            lemma_kept_len_le(used@, i as int);
        }
        new_index.push(cnt);
        if used[i as usize] {
            vertices.push(i);
            cnt = cnt + 1;
        }
        i = i + 1;
    }
    let ghost usedv = used_flags(sel@, nv as nat);
    let mut indices: Vec<u16> = Vec::new();
    let mut j: usize = 0;
    while j < sel.len()
        invariant
            j <= sel@.len(),
            used@ == usedv,
            new_index@.len() == nv,
            forall|k: int| 0 <= k < nv ==> #[trigger] new_index@[k] as int == rank(used@, k),
            forall|k: int| 0 <= k < sel@.len() ==> (#[trigger] sel@[k]) < nv,
            indices@.len() == j,
            forall|k: int| 0 <= k < j ==> #[trigger] indices@[k] as int == rank(used@, sel@[k] as int),
        decreases sel@.len() - j,
    {
        let x = sel[j];
        let r = new_index[x as usize];
        proof {
            lemma_kept_len_le(used@, x as int);
        }
        indices.push(r as u16);
        j = j + 1;
    }
    proof {
        assert forall|k: int| 0 <= k < sel@.len() implies #[trigger] indices@[k] == part_indices(
            tris@,
            positions@,
            m as int,
            nv as nat,
        )[k] by {
            lemma_kept_len_le(used@, sel@[k] as int);
        }
        assert(indices@ =~= part_indices(tris@, positions@, m as int, nv as nat));
    }
    MeshPart { vertices, indices }
}

/// Splits the triangles among `material_count` materials: one part per
/// material, empty where no triangle uses it.
pub fn partition_all(tris: &Vec<Triangle>, positions: &Vec<u32>, material_count: u64, nv: u32) -> (r:
    Vec<MeshPart>)
    requires
        indices_valid(tris@, nv as nat),
    ensures
        r@.len() == material_count,
        forall|m: int| 0 <= m < material_count ==> part_of(#[trigger] r@[m], tris@, positions@, m, nv as nat),
{
    let mut parts: Vec<MeshPart> = Vec::new();
    let mut m: u64 = 0;
    while m < material_count
        invariant
            m <= material_count,
            indices_valid(tris@, nv as nat),
            parts@.len() == m,
            forall|k: int| 0 <= k < m ==> part_of(#[trigger] parts@[k], tris@, positions@, k, nv as nat),
        decreases material_count - m,
    {
        parts.push(partition(tris, positions, m, nv));
        m = m + 1;
    }
    parts
}

/// The entry of the material list's index table that id `i` resolves to:
/// itself when its entry is negative (a material of its own), else the
/// entry it is an instance of.
pub open spec fn resolved_entry(table: Seq<i32>, i: int) -> int {
    if table[i] >= 0 {
        table[i] as int
    } else {
        i
    }
}

/// How many of `table[..j]` are materials of their own. Only those have a
/// material chunk, in table order.
pub open spec fn own_before(table: Seq<i32>, j: int) -> nat
    decreases j,
{
    if j <= 0 {
        0
    } else {
        own_before(table, j - 1) + if table[j - 1] < 0 {
            1nat
        } else {
            0nat
        }
    }
}

/// Every entry resolves to an entry of the table.
pub open spec fn table_valid(table: Seq<i32>) -> bool {
    &&& table.len() <= u32::MAX
    &&& forall|i: int| 0 <= i < table.len() ==> 0 <= #[trigger] resolved_entry(table, i) < table.len()
}

/// For each material id, the position of its material chunk.
pub open spec fn positions_of(table: Seq<i32>) -> Seq<u32> {
    Seq::new(table.len(), |i: int| own_before(table, resolved_entry(table, i)) as u32)
}

proof fn lemma_own_before_le(table: Seq<i32>, j: int)
    requires
        0 <= j,
    ensures
        own_before(table, j) <= j,
    decreases j,
{
    if j > 0 {
        lemma_own_before_le(table, j - 1);
    }
}

/// Maps each material id of an index table to the position of its material
/// chunk, or `None` when some entry points past the table.
pub fn material_positions(table: &Vec<i32>) -> (r: Option<Vec<u32>>)
    ensures
        match r {
            Some(p) => table_valid(table@) && p@ == positions_of(table@),
            None => !table_valid(table@),
        },
{
    let n = table.len();
    if n > 0xFFFF_FFFFusize {
        return None;
    }
    let mut own: Vec<u32> = Vec::new();
    let mut cnt: u32 = 0;
    let mut i: usize = 0;
    while i < n
        invariant
            i <= n,
            n == table@.len(),
            n <= u32::MAX,
            own@.len() == i,
            cnt as int == own_before(table@, i as int),
            forall|k: int| 0 <= k < i ==> #[trigger] own@[k] as int == own_before(table@, k),
        decreases n - i,
    {
        proof {
            lemma_own_before_le(table@, i as int);
        }
        own.push(cnt);
        if table[i] < 0 {
            cnt = cnt + 1;
        }
        i = i + 1;
    }
    let mut pos: Vec<u32> = Vec::new();
    i = 0;
    while i < n
        invariant
            i <= n,
            n == table@.len(),
            n <= u32::MAX,
            own@.len() == n,
            forall|k: int| 0 <= k < n ==> #[trigger] own@[k] as int == own_before(table@, k),
            forall|k: int| 0 <= k < i ==> 0 <= #[trigger] resolved_entry(table@, k) < n,
            pos@ =~= positions_of(table@).subrange(0, i as int),
        decreases n - i,
    {
        let e = table[i];
        let j: usize = if e >= 0 {
            if e as usize >= n {
                assert(!(0 <= resolved_entry(table@, i as int) < n));
                return None;
            }
            e as usize
        } else {
            i
        };
        pos.push(own[j]);
        i = i + 1;
    }
    Some(pos)
}

} // verus!
