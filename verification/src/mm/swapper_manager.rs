use vstd::prelude::*;

verus! {

/// Number of sectors of the swap area on the root disk.
pub const SWAP_SECTORS: usize = 0x800;
/// First sector of the swap area on the root disk.
pub const SWAP_SECTORS_OFF: usize = 0x7800;

/// A run of free sectors `[addr, addr + size)`.
#[derive(Clone, Copy, Debug)]
pub struct Area {
    pub addr: usize,
    pub size: usize,
}

impl Area {
    pub open spec fn end_spec(self) -> int {
        self.addr + self.size
    }

    /// One past the last sector of the run.
    fn end(&self) -> (r: usize)
        requires
            self.addr + self.size <= usize::MAX,
        ensures
            r == self.end_spec(),
    {
        self.addr + self.size
    }
}

/// A run whose address and size are non-zero and whose end is representable.
pub open spec fn area_ok(a: Area) -> bool {
    &&& a.addr > 0
    &&& a.size > 0
    &&& a.addr + a.size <= usize::MAX
}

/// Free runs sorted by address, separated by at least one used sector.
pub open spec fn areas_wf(s: Seq<Area>) -> bool {
    &&& s.len() <= AreaList::MAX
    &&& forall|i: int| 0 <= i < s.len() ==> #[trigger] area_ok(s[i])
    &&& forall|i: int, j: int|
        #![trigger s[i], s[j]]
        0 <= i < j < s.len() ==> s[i].end_spec() < s[j].addr
}

/// Like `areas_wf`, except that the runs at `pos` and `pos + 1` may touch.
pub open spec fn areas_wf_touching_at(s: Seq<Area>, pos: int) -> bool {
    &&& s.len() <= AreaList::MAX
    &&& forall|i: int| 0 <= i < s.len() ==> #[trigger] area_ok(s[i])
    &&& forall|i: int, j: int|
        #![trigger s[i], s[j]]
        0 <= i < j < s.len() ==> s[i].end_spec() < s[j].addr || (i == pos && j == pos + 1
            && s[i].end_spec() == s[j].addr)
}

/// Sector `x` lies in one of the runs of `s`.
pub open spec fn covers(s: Seq<Area>, x: int) -> bool {
    exists|i: int| 0 <= i < s.len() && #[trigger] s[i].addr <= x < s[i].end_spec()
}

/// `i` is the first run of `s` that holds at least `size` sectors.
pub open spec fn is_first_fit(s: Seq<Area>, size: int, i: int) -> bool {
    &&& 0 <= i < s.len()
    &&& s[i].size >= size
    &&& forall|j: int| 0 <= j < i ==> #[trigger] s[j].size < size
}

/// Some run of `s` holds at least `size` sectors.
pub open spec fn fits_somewhere(s: Seq<Area>, size: int) -> bool {
    exists|i: int| 0 <= i < s.len() && #[trigger] s[i].size >= size
}

/// The runs after `size` sectors are taken from the front of run `i`.
pub open spec fn take_from(s: Seq<Area>, i: int, size: int) -> Seq<Area> {
    if s[i].size > size {
        s.update(i, Area { addr: (s[i].addr + size) as usize, size: (s[i].size - size) as usize })
    } else {
        s.remove(i)
    }
}

/// The first run whose end is at or after `addr` (or the length when there is none).
pub open spec fn insert_pos(s: Seq<Area>, addr: int) -> int
    decreases s.len(),
{
    if s.len() == 0 {
        0
    } else if s[0].end_spec() >= addr {
        0
    } else {
        1 + insert_pos(s.drop_first(), addr)
    }
}

/// Freeing `[addr, addr + size)` into `s` needs a new slot in the table.
pub open spec fn free_needs_slot(s: Seq<Area>, addr: int) -> bool {
    let pos = insert_pos(s, addr);
    pos >= s.len() || s[pos].end_spec() != addr
}

/// The free-space map of the swap area: a table of at most `MAX` free runs.
pub struct AreaList {
    areas: Vec<Area>,
}

impl View for AreaList {
    type V = Seq<Area>;

    closed spec fn view(&self) -> Seq<Area> {
        self.areas@
    }
}

proof fn lemma_insert_pos(s: Seq<Area>, addr: int)
    ensures
        0 <= insert_pos(s, addr) <= s.len(),
        forall|j: int| 0 <= j < insert_pos(s, addr) ==> #[trigger] s[j].end_spec() < addr,
        insert_pos(s, addr) < s.len() ==> s[insert_pos(s, addr)].end_spec() >= addr,
    decreases s.len(),
{
    if s.len() > 0 && s[0].end_spec() < addr {
        lemma_insert_pos(s.drop_first(), addr);
        assert forall|j: int| 0 <= j < insert_pos(s, addr) implies #[trigger] s[j].end_spec()
            < addr by {
            if j > 0 {
                assert(s[j] == s.drop_first()[j - 1]);
            }
        }
    }
}

/// After taking sectors from a run, exactly the taken sectors stop being free.
pub proof fn lemma_take_from_covers(s: Seq<Area>, i: int, size: int, x: int)
    requires
        areas_wf(s),
        0 <= i < s.len(),
        0 < size <= s[i].size,
    ensures
        areas_wf(take_from(s, i, size)),
        covers(take_from(s, i, size), x) <==> (covers(s, x) && !(s[i].addr <= x < s[i].addr
            + size)),
{
    let t = take_from(s, i, size);
    assert(area_ok(s[i]));
    if s[i].size > size {
        let na = Area { addr: (s[i].addr + size) as usize, size: (s[i].size - size) as usize };
        assert(t == s.update(i, na));
        assert forall|a: int, b: int|
            #![trigger t[a], t[b]]
            0 <= a < b < t.len() implies t[a].end_spec() < t[b].addr by {
            assert(s[a].end_spec() < s[b].addr);
            if a == i {
                assert(t[a].end_spec() == s[a].end_spec());
                assert(t[b] == s[b]);
            } else if b == i {
                assert(t[a] == s[a]);
                assert(t[b].addr > s[b].addr);
            } else {
                assert(t[a] == s[a] && t[b] == s[b]);
            }
        }
        assert forall|a: int| 0 <= a < t.len() implies #[trigger] area_ok(t[a]) by {
            if a != i {
                assert(t[a] == s[a]);
                assert(area_ok(s[a]));
            }
        }
        if covers(t, x) {
            let k = choose|k: int| 0 <= k < t.len() && #[trigger] t[k].addr <= x < t[k].end_spec();
            if k == i {
                assert(s[k].addr <= x < s[k].end_spec());
            } else {
                assert(t[k] == s[k]);
                assert(s[k].addr <= x < s[k].end_spec());
                if s[i].addr <= x < s[i].addr + size {
                    if k < i {
                        assert(s[k].end_spec() < s[i].addr);
                    } else {
                        assert(s[i].end_spec() < s[k].addr);
                    }
                }
            }
        }
        if covers(s, x) && !(s[i].addr <= x < s[i].addr + size) {
            let k = choose|k: int| 0 <= k < s.len() && #[trigger] s[k].addr <= x < s[k].end_spec();
            if k == i {
                assert(t[k].addr <= x < t[k].end_spec());
            } else {
                assert(t[k] == s[k]);
                assert(t[k].addr <= x < t[k].end_spec());
            }
        }
    } else {
        assert forall|a: int, b: int|
            #![trigger t[a], t[b]]
            0 <= a < b < t.len() implies t[a].end_spec() < t[b].addr by {
            let a0 = if a < i { a } else { a + 1 };
            let b0 = if b < i { b } else { b + 1 };
            assert(t[a] == s[a0] && t[b] == s[b0]);
            assert(s[a0].end_spec() < s[b0].addr);
        }
        assert forall|a: int| 0 <= a < t.len() implies #[trigger] area_ok(t[a]) by {
            let a0 = if a < i { a } else { a + 1 };
            assert(t[a] == s[a0]);
            assert(area_ok(s[a0]));
        }
        if covers(t, x) {
            let k = choose|k: int| 0 <= k < t.len() && #[trigger] t[k].addr <= x < t[k].end_spec();
            let k0 = if k < i { k } else { k + 1 };
            assert(t[k] == s[k0]);
            assert(s[k0].addr <= x < s[k0].end_spec());
            if s[i].addr <= x < s[i].addr + size {
                if k0 < i {
                    assert(s[k0].end_spec() < s[i].addr);
                } else {
                    assert(s[i].end_spec() < s[k0].addr);
                }
            }
        }
        if covers(s, x) && !(s[i].addr <= x < s[i].addr + size) {
            let k = choose|k: int| 0 <= k < s.len() && #[trigger] s[k].addr <= x < s[k].end_spec();
            assert(k != i);
            let k1 = if k < i { k } else { k - 1 };
            assert(t[k1] == s[k]);
            assert(t[k1].addr <= x < t[k1].end_spec());
        }
    }
}

/// Merging a touching pair `pos`, `pos + 1` into one run keeps the free sectors.
proof fn lemma_merge_covers(s: Seq<Area>, pos: int)
    requires
        areas_wf_touching_at(s, pos),
        0 <= pos,
        pos + 1 < s.len(),
        s[pos].end_spec() == s[pos + 1].addr,
    ensures
        ({
            let m = s.update(pos, Area { addr: s[pos].addr, size: (s[pos].size + s[pos + 1].size) as usize }).remove(pos + 1);
            &&& areas_wf(m)
            &&& forall|x: int| covers(m, x) <==> covers(s, x)
        }),
{
    let u = s.update(pos, Area { addr: s[pos].addr, size: (s[pos].size + s[pos + 1].size) as usize });
    let m = u.remove(pos + 1);
    assert(area_ok(s[pos]) && area_ok(s[pos + 1]));
    assert forall|a: int| 0 <= a < m.len() implies #[trigger] area_ok(m[a]) by {
        let a0 = if a <= pos { a } else { a + 1 };
        assert(m[a] == u[a0]);
        if a0 != pos {
            assert(u[a0] == s[a0]);
            assert(area_ok(s[a0]));
        } else {
            assert(area_ok(s[pos + 1]));
        }
    }
    assert forall|a: int, b: int|
        #![trigger m[a], m[b]]
        0 <= a < b < m.len() implies m[a].end_spec() < m[b].addr by {
        let a0 = if a <= pos { a } else { a + 1 };
        let b0 = if b <= pos { b } else { b + 1 };
        assert(m[a] == u[a0] && m[b] == u[b0]);
        if a0 == pos {
            assert(b0 > pos + 1);
            assert(s[pos + 1].end_spec() < s[b0].addr);
        } else if b0 == pos {
            assert(s[a0].end_spec() < s[pos].addr);
        } else {
            assert(s[a0].end_spec() < s[b0].addr);
        }
    }
    assert forall|x: int| covers(m, x) <==> covers(s, x) by {
        if covers(m, x) {
            let k = choose|k: int| 0 <= k < m.len() && #[trigger] m[k].addr <= x < m[k].end_spec();
            let k0 = if k <= pos { k } else { k + 1 };
            assert(m[k] == u[k0]);
            if k0 == pos {
                if x < s[pos].end_spec() {
                    assert(s[pos].addr <= x < s[pos].end_spec());
                } else {
                    assert(s[pos + 1].addr <= x < s[pos + 1].end_spec());
                }
            } else {
                assert(s[k0].addr <= x < s[k0].end_spec());
            }
        }
        if covers(s, x) {
            let k = choose|k: int| 0 <= k < s.len() && #[trigger] s[k].addr <= x < s[k].end_spec();
            if k == pos || k == pos + 1 {
                assert(m[pos].addr <= x < m[pos].end_spec());
            } else if k < pos {
                assert(m[k] == s[k]);
                assert(m[k].addr <= x < m[k].end_spec());
            } else {
                assert(m[k - 1] == s[k]);
                assert(m[k - 1].addr <= x < m[k - 1].end_spec());
            }
        }
    }
}

impl AreaList {
    /// Capacity of the table.
    pub const MAX: usize = 512;

    /// The runs are sorted by address, valid, separated by used sectors, and at most
    /// `MAX` (see `areas_wf`).
    pub open spec fn wf(&self) -> bool {
        areas_wf(self@)
    }

    /// An empty table: no free sector.
    pub fn new() -> (r: Self)
        ensures
            r.wf(),
            r@ == Seq::<Area>::empty(),
    {
        AreaList { areas: Vec::new() }
    }

    /// Number of free runs.
    pub fn len(&self) -> (r: usize)
        ensures
            r == self@.len(),
    {
        self.areas.len()
    }

    /// The run at `idx`.
    pub fn area(&self, idx: usize) -> (r: Area)
        requires
            idx < self@.len(),
        ensures
            r == self@[idx as int],
    {
        self.areas[idx]
    }

    /// Takes `size` sectors from the front of the first run that is large enough
    /// (first fit) and returns their first sector; `None` when no run is large enough.
    pub fn allocate(&mut self, size: usize) -> (r: Option<usize>)
        requires
            old(self).wf(),
            size > 0,
        ensures
            final(self).wf(),
            match r {
                None => !fits_somewhere(old(self)@, size as int) && final(self)@ == old(self)@,
                Some(a) => exists|i: int|
                    #![trigger old(self)@[i]]
                    is_first_fit(old(self)@, size as int, i) && a == old(self)@[i].addr
                        && final(self)@ == take_from(old(self)@, i, size as int),
            },
    {
        let mut idx: usize = 0;
        let n = self.areas.len();
        while idx < n && self.areas[idx].size < size
            invariant
                n == self.areas@.len(),
                self.areas@ == old(self).areas@,
                idx <= n,
                forall|j: int| 0 <= j < idx ==> #[trigger] self.areas@[j].size < size,
            decreases n - idx,
        {
            idx = idx + 1;
        }
        if idx == n {
            assert(!fits_somewhere(old(self)@, size as int));
            return None;
        }
        let found = self.areas[idx];
        let addr = found.addr;
        proof {
            assert(area_ok(self.areas@[idx as int]));
            assert(is_first_fit(old(self)@, size as int, idx as int));
            lemma_take_from_covers(old(self)@, idx as int, size as int, 0);
        }
        if found.size > size {
            self.areas.set(idx, Area { addr: found.addr + size, size: found.size - size });
            return Some(addr);
        }
        self.remove(idx);
        Some(addr)
    }

    /// Removes the run at `idx`, closing the gap.
    fn remove(&mut self, idx: usize)
        requires
            idx < old(self)@.len(),
        ensures
            final(self)@ == old(self)@.remove(idx as int),
    {
        self.areas.remove(idx);
    }

    /// Makes room for a new run at `idx`, moving the later runs up by one.
    fn pre_insert(&mut self, idx: usize, area: Area)
        requires
            idx <= old(self)@.len(),
        ensures
            final(self)@ == old(self)@.insert(idx as int, area),
    {
        self.areas.insert(idx, area);
    }

    /// The first run whose end is at or after `addr`, or the number of runs.
    fn find_insert_pos(&self, addr: usize) -> (r: usize)
        requires
            self.wf(),
        ensures
            r == insert_pos(self@, addr as int),
    {
        proof {
            lemma_insert_pos(self@, addr as int);
        }
        let mut i: usize = 0;
        let n = self.areas.len();
        while i < n
            invariant
                n == self@.len(),
                i <= n,
                self.wf(),
                forall|j: int| 0 <= j < i ==> #[trigger] self@[j].end_spec() < addr,
                0 <= insert_pos(self@, addr as int) <= n,
                forall|j: int| 0 <= j < insert_pos(self@, addr as int) ==> #[trigger] self@[j].end_spec() < addr,
                insert_pos(self@, addr as int) < n ==> self@[insert_pos(self@, addr as int)].end_spec() >= addr,
            decreases n - i,
        {
            assert(area_ok(self@[i as int]));
            if self.areas[i].end() >= addr {
                assert(i == insert_pos(self@, addr as int)) by {
                    let p = insert_pos(self@, addr as int);
                    if p < i {
                        assert(self@[p].end_spec() < addr);
                    }
                    if p > i {
                        assert(self@[i as int].end_spec() < addr);
                    }
                }
                return i;
            }
            i = i + 1;
        }
        i
    }

    /// Joins the run at `pos` with the next one when they touch.
    fn try_merge_next(&mut self, pos: usize)
        requires
            areas_wf_touching_at(old(self)@, pos as int),
            pos < old(self)@.len(),
        ensures
            areas_wf(final(self)@),
            forall|x: int| covers(final(self)@, x) <==> covers(old(self)@, x),
            pos < final(self)@.len(),
    {
        let ghost s = self@;
        if pos == Self::MAX - 1 || pos + 1 >= self.areas.len() {
            assert(areas_wf(s));
            return;
        }
        let cur = self.areas[pos];
        let next = self.areas[pos + 1];
        if cur.end() != next.addr {
            assert(areas_wf(s)) by {
                assert forall|i: int, j: int|
                    #![trigger s[i], s[j]]
                    0 <= i < j < s.len() implies s[i].end_spec() < s[j].addr by {
                    if i == pos && j == pos + 1 {
                        assert(s[i].end_spec() <= s[j].addr);
                    }
                }
            }
            return;
        }
        proof {
            assert(area_ok(s[pos as int + 1]));
            lemma_merge_covers(s, pos as int);
        }
        self.areas.set(pos, Area { addr: cur.addr, size: cur.size + next.size });
        self.remove(pos + 1);
    }

    /// Joins the run at `pos` with the previous one when they touch.
    fn try_merge_prev(&mut self, pos: usize)
        requires
            pos < old(self)@.len(),
            pos > 0 ==> areas_wf_touching_at(old(self)@, pos - 1),
            pos == 0 ==> areas_wf(old(self)@),
        ensures
            areas_wf(final(self)@),
            forall|x: int| covers(final(self)@, x) <==> covers(old(self)@, x),
    {
        if pos == 0 {
            return;
        }
        self.try_merge_next(pos - 1);
    }

    /// Returns the run `[addr, addr + size)` to the table, joining it with the
    /// neighbouring runs that it touches.
    pub fn free(&mut self, addr: usize, size: usize)
        requires
            old(self).wf(),
            addr > 0,
            size > 0,
            addr + size <= usize::MAX,
            forall|x: int| addr <= x < addr + size ==> !covers(old(self)@, x),
            free_needs_slot(old(self)@, addr as int) ==> old(self)@.len() < Self::MAX,
        ensures
            final(self).wf(),
            forall|x: int|
                covers(final(self)@, x) <==> (covers(old(self)@, x) || addr <= x < addr + size),
    {
        let ghost s = self@;
        let pos = self.find_insert_pos(addr);
        proof {
            lemma_insert_pos(s, addr as int);
        }
        let new_area = Area { addr, size };
        if pos == self.areas.len() {
            self.areas.push(new_area);
            proof {
                let t = self@;
                assert(t == s.push(new_area));
                assert forall|i: int, j: int|
                    #![trigger t[i], t[j]]
                    0 <= i < j < t.len() implies t[i].end_spec() < t[j].addr by {
                    if j == s.len() {
                        assert(s[i].end_spec() < addr);
                    } else {
                        assert(s[i].end_spec() < s[j].addr);
                    }
                }
                assert(forall|i: int| 0 <= i < t.len() ==> #[trigger] area_ok(t[i]));
                assert forall|x: int| covers(t, x) <==> (covers(s, x) || addr <= x < addr + size) by {
                    if covers(s, x) {
                        let k = choose|k: int| 0 <= k < s.len() && #[trigger] s[k].addr <= x < s[k].end_spec();
                        assert(t[k].addr <= x < t[k].end_spec());
                    }
                    if addr <= x < addr + size {
                        assert(t[s.len() as int].addr <= x < t[s.len() as int].end_spec());
                    }
                    if covers(t, x) {
                        let k = choose|k: int| 0 <= k < t.len() && #[trigger] t[k].addr <= x < t[k].end_spec();
                        if k < s.len() {
                            assert(s[k].addr <= x < s[k].end_spec());
                        }
                    }
                }
            }
            return;
        }
        let area = self.areas[pos];
        let ghost p = pos as int;
        assert(area_ok(s[p]));
        assert(p + 1 < s.len() ==> area_ok(s[p + 1]));
        // The freed run cannot overlap the run at `pos`, which ends at or after `addr`.
        assert(area.end_spec() == addr || addr + size <= area.addr) by {
            if area.end_spec() != addr && area.addr < addr + size {
                let y = if area.addr <= addr { addr as int } else { area.addr as int };
                assert(s[p].addr <= y < s[p].end_spec());
                assert(covers(s, y));
            }
        }
        if area.end() == addr {
            self.areas.set(pos, Area { addr: area.addr, size: area.size + size });
            proof {
                let t = self@;
                assert(t == s.update(p, Area { addr: area.addr, size: (area.size + size) as usize }));
                if p + 1 < s.len() {
                    assert(s[p + 1].addr >= addr + size) by {
                        assert(s[p].end_spec() < s[p + 1].addr);
                        if s[p + 1].addr < addr + size {
                            assert(s[p + 1].addr <= s[p + 1].addr < s[p + 1].end_spec());
                            assert(covers(s, s[p + 1].addr as int));
                        }
                    }
                }
                assert forall|i: int| 0 <= i < t.len() implies #[trigger] area_ok(t[i]) by {
                    if i != p {
                        assert(t[i] == s[i]);
                        assert(area_ok(s[i]));
                    }
                }
                assert forall|i: int, j: int|
                    #![trigger t[i], t[j]]
                    0 <= i < j < t.len() implies t[i].end_spec() < t[j].addr || (i == p && j == p + 1
                        && t[i].end_spec() == t[j].addr) by {
                    if i == p && j > p + 1 {
                        assert(s[p + 1].end_spec() < s[j].addr);
                    } else if i != p && j != p {
                        assert(s[i].end_spec() < s[j].addr);
                    } else if j == p {
                        assert(s[i].end_spec() < s[p].addr);
                    }
                }
                assert forall|x: int| covers(t, x) <==> (covers(s, x) || addr <= x < addr + size) by {
                    if covers(s, x) {
                        let k = choose|k: int| 0 <= k < s.len() && #[trigger] s[k].addr <= x < s[k].end_spec();
                        assert(t[k].addr <= x < t[k].end_spec());
                    }
                    if addr <= x < addr + size {
                        assert(t[p].addr <= x < t[p].end_spec());
                    }
                    if covers(t, x) {
                        let k = choose|k: int| 0 <= k < t.len() && #[trigger] t[k].addr <= x < t[k].end_spec();
                        if k != p {
                            assert(s[k].addr <= x < s[k].end_spec());
                        } else if x < addr {
                            assert(s[p].addr <= x < s[p].end_spec());
                        }
                    }
                }
            }
        } else {
            self.pre_insert(pos, new_area);
            proof {
                let t = self@;
                assert(t == s.insert(p, new_area));
                assert forall|i: int| 0 <= i < t.len() implies #[trigger] area_ok(t[i]) by {
                    if i < p {
                        assert(t[i] == s[i]);
                        assert(area_ok(s[i]));
                    } else if i > p {
                        assert(t[i] == s[i - 1]);
                        assert(area_ok(s[i - 1]));
                    }
                }
                assert forall|i: int, j: int|
                    #![trigger t[i], t[j]]
                    0 <= i < j < t.len() implies t[i].end_spec() < t[j].addr || (i == p && j == p + 1
                        && t[i].end_spec() == t[j].addr) by {
                    let i0 = if i <= p { i } else { i - 1 };
                    let j0 = if j <= p { j } else { j - 1 };
                    if i == p {
                        assert(t[j] == s[j0]);
                        if j > p + 1 {
                            assert(s[p].end_spec() < s[j0].addr);
                        }
                    } else if j == p {
                        assert(t[i] == s[i]);
                        assert(s[i].end_spec() < addr);
                    } else {
                        assert(t[i] == s[i0] && t[j] == s[j0]);
                        assert(s[i0].end_spec() < s[j0].addr);
                    }
                }
                assert forall|x: int| covers(t, x) <==> (covers(s, x) || addr <= x < addr + size) by {
                    if covers(s, x) {
                        let k = choose|k: int| 0 <= k < s.len() && #[trigger] s[k].addr <= x < s[k].end_spec();
                        if k < p {
                            assert(t[k] == s[k]);
                            assert(t[k].addr <= x < t[k].end_spec());
                        } else {
                            assert(t[k + 1] == s[k]);
                            assert(t[k + 1].addr <= x < t[k + 1].end_spec());
                        }
                    }
                    if addr <= x < addr + size {
                        assert(t[p].addr <= x < t[p].end_spec());
                    }
                    if covers(t, x) {
                        let k = choose|k: int| 0 <= k < t.len() && #[trigger] t[k].addr <= x < t[k].end_spec();
                        if k < p {
                            assert(s[k].addr <= x < s[k].end_spec());
                        } else if k > p {
                            assert(t[k] == s[k - 1]);
                            assert(s[k - 1].addr <= x < s[k - 1].end_spec());
                        }
                    }
                }
            }
        }
        let ghost mid = self@;
        self.try_merge_next(pos);
        self.try_merge_prev(pos);
    }
}

} // verus!
