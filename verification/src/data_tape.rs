use vstd::prelude::*;

use std::collections::HashMap;

use crate::virtual_machine_errors::VMErrKind;

verus! {

broadcast use vstd::std_specs::hash::group_hash_axioms;

/// One page holds this many 16-bit cells, one per 16-bit pointer value.
pub const PAGE_CELLS: usize = 0x10000;

/// The contents of a freshly materialized (or never-touched) page.
pub open spec fn zero_page() -> Seq<u16> {
    Seq::new(PAGE_CELLS as nat, |i: int| 0u16)
}

/// A 16-bit register increased by one, wrapping modulo 65536.
pub open spec fn wrap_inc(x: u16) -> u16 {
    if x == 0xFFFF {
        0u16
    } else {
        (x + 1) as u16
    }
}

/// A 16-bit register decreased by one, wrapping modulo 65536.
pub open spec fn wrap_dec(x: u16) -> u16 {
    if x == 0 {
        0xFFFFu16
    } else {
        (x - 1) as u16
    }
}

/// The mathematical model of a [`DataTape`]: the registers, the ordinary
/// memory as a total function from page number to page contents (a page never
/// written reads as all zeroes, so lazy materialization is invisible here),
/// and the private workspace pages.
#[verifier::ext_equal]
pub struct TapeView {
    /// The data pointer register: the cell index within the active page.
    pub pointer: u16,
    /// The page register: which ordinary page is active.
    pub page: u16,
    /// How many ordinary pages may be accessed: the page register must stay
    /// below this at access time.
    pub max_pages: u32,
    /// The workspace selector: `0` means ordinary paged memory, `1..=n`
    /// selects workspace `index - 1`.
    pub workspace_index: int,
    /// How many private workspace pages exist.
    pub num_workspaces: int,
    /// Every ordinary page's contents, indexed by page number then pointer.
    pub mem: Map<u16, Seq<u16>>,
    /// Every workspace page's contents.
    pub workspaces: Seq<Seq<u16>>,
}

impl TapeView {
    /// Structural facts every reachable tape satisfies.
    pub open spec fn wf(self) -> bool {
        &&& 0 <= self.workspace_index <= self.num_workspaces
        &&& self.workspaces.len() == self.num_workspaces
        &&& forall|w: int|
            0 <= w < self.num_workspaces ==> (#[trigger] self.workspaces[w]).len() == PAGE_CELLS
        &&& forall|p: u16| self.mem.contains_key(p)
        &&& forall|p: u16| (#[trigger] self.mem[p]).len() == PAGE_CELLS
    }

    /// Whether a value access is routed to a workspace page rather than to
    /// ordinary paged memory.
    pub open spec fn uses_workspace(self) -> bool {
        self.workspace_index > 0
    }

    /// Whether a value access succeeds: workspace accesses always do, an
    /// ordinary access needs the page register below the page limit.
    pub open spec fn can_access(self) -> bool {
        self.uses_workspace() || (self.page as int) < self.max_pages as int
    }

    /// The cell a successful value access reads or overwrites.
    pub open spec fn read_cell(self) -> u16 {
        if self.uses_workspace() {
            self.workspaces[self.workspace_index - 1][self.pointer as int]
        } else {
            self.mem[self.page][self.pointer as int]
        }
    }

    /// The tape after a successful write of `value` at the active cell.
    pub open spec fn write_cell(self, value: u16) -> TapeView {
        if self.uses_workspace() {
            TapeView {
                workspaces: self.workspaces.update(
                    self.workspace_index - 1,
                    self.workspaces[self.workspace_index - 1].update(
                        self.pointer as int,
                        value,
                    ),
                ),
                ..self
            }
        } else {
            TapeView {
                mem: self.mem.insert(
                    self.page,
                    self.mem[self.page].update(self.pointer as int, value),
                ),
                ..self
            }
        }
    }
}

/// The tape after advancing to the next workspace: the ring is threaded into
/// the page sequence, so advancing past the last workspace enters the next
/// ordinary page at workspace index 0.
pub open spec fn next_ws_view(v: TapeView) -> TapeView {
    if v.workspace_index == v.num_workspaces {
        TapeView { page: wrap_inc(v.page), workspace_index: 0, ..v }
    } else {
        TapeView { workspace_index: v.workspace_index + 1, ..v }
    }
}

/// The tape after retreating to the previous workspace: retreating past
/// workspace index 0 enters the previous ordinary page at the last workspace.
pub open spec fn prev_ws_view(v: TapeView) -> TapeView {
    if v.workspace_index == 0 {
        TapeView { page: wrap_dec(v.page), workspace_index: v.num_workspaces, ..v }
    } else {
        TapeView { workspace_index: v.workspace_index - 1, ..v }
    }
}

/// The model of a tape fresh out of construction: registers zeroed and every
/// cell, ordinary or workspace, zero.
pub open spec fn empty_tape_view(max_pages: u32, num_workspaces: int) -> TapeView {
    TapeView {
        pointer: 0,
        page: 0,
        max_pages,
        workspace_index: 0,
        num_workspaces,
        mem: Map::new(|p: u16| true, |p: u16| zero_page()),
        workspaces: Seq::new(num_workspaces as nat, |i: int| zero_page()),
    }
}

/// The tape after `k` advances on the workspace ring.
pub open spec fn iter_next_ws(v: TapeView, k: nat) -> TapeView
    decreases k,
{
    if k == 0 {
        v
    } else {
        next_ws_view(iter_next_ws(v, (k - 1) as nat))
    }
}

/// The tape after `k` retreats on the workspace ring.
pub open spec fn iter_prev_ws(v: TapeView, k: nat) -> TapeView
    decreases k,
{
    if k == 0 {
        v
    } else {
        prev_ws_view(iter_prev_ws(v, (k - 1) as nat))
    }
}

/// Incrementing a 16-bit register and then decrementing it (or the other way
/// round) returns to the original value: wraparound is a true modulo-65536
/// group operation.
pub proof fn lemma_wrap_round_trip(x: u16)
    ensures
        wrap_dec(wrap_inc(x)) == x,
        wrap_inc(wrap_dec(x)) == x,
{
}

/// Reading any cell of a tape whose memory was never written returns zero,
/// whatever the registers and the selected workspace say, with no
/// initialization asked of the caller.
pub proof fn lemma_unwritten_reads_zero(
    max_pages: u32,
    num_workspaces: int,
    pointer: u16,
    page: u16,
    workspace_index: int,
)
    requires
        0 <= workspace_index <= num_workspaces,
    ensures
        (TapeView {
            pointer,
            page,
            workspace_index,
            ..empty_tape_view(max_pages, num_workspaces)
        }).read_cell() == 0,
{
}

/// A read right after a write returns the value just written, on whichever
/// page (ordinary or workspace) the registers select.
pub proof fn lemma_read_after_write(t: TapeView, v: u16)
    requires
        t.wf(),
    ensures
        t.write_cell(v).read_cell() == v,
{
}

/// Advancing `k` times from ordinary memory, while still within the
/// workspace range, only moves the workspace selector.
proof fn lemma_next_ws_chain(t: TapeView, k: nat)
    requires
        t.wf(),
        t.workspace_index == 0,
        k <= t.num_workspaces,
    ensures
        iter_next_ws(t, k) == (TapeView { workspace_index: k as int, ..t }),
    decreases k,
{
    if k == 0 {
        assert(iter_next_ws(t, 0) =~= (TapeView { workspace_index: 0, ..t }));
    } else {
        lemma_next_ws_chain(t, (k - 1) as nat);
    }
}

/// Retreating `k + 1` times from ordinary memory steps the page register
/// back once and walks the workspace selector down from the last workspace.
proof fn lemma_prev_ws_chain(t: TapeView, k: nat)
    requires
        t.wf(),
        t.workspace_index == 0,
        k <= t.num_workspaces,
    ensures
        iter_prev_ws(t, (k + 1) as nat) == (TapeView {
            page: wrap_dec(t.page),
            workspace_index: t.num_workspaces - k,
            ..t
        }),
    decreases k,
{
    if k == 0 {
        assert(iter_prev_ws(t, 1) == prev_ws_view(iter_prev_ws(t, 0)));
    } else {
        lemma_prev_ws_chain(t, (k - 1) as nat);
    }
}

/// The workspace ring is threaded into the page sequence: advancing exactly
/// `N + 1` times from workspace index 0 (`N` the workspace count) returns to
/// workspace index 0 with the page register stepped forward once, everything
/// else untouched.
pub proof fn lemma_workspace_ring_next(t: TapeView)
    requires
        t.wf(),
        t.workspace_index == 0,
    ensures
        iter_next_ws(t, (t.num_workspaces + 1) as nat) == (TapeView {
            page: wrap_inc(t.page),
            ..t
        }),
{
    lemma_next_ws_chain(t, t.num_workspaces as nat);
    assert(iter_next_ws(t, (t.num_workspaces + 1) as nat) == next_ws_view(
        iter_next_ws(t, t.num_workspaces as nat),
    ));
}

/// The ring works the same way backwards: retreating exactly `N + 1` times
/// from workspace index 0 returns to workspace index 0 with the page
/// register stepped back once, everything else untouched.
pub proof fn lemma_workspace_ring_prev(t: TapeView)
    requires
        t.wf(),
        t.workspace_index == 0,
    ensures
        iter_prev_ws(t, (t.num_workspaces + 1) as nat) == (TapeView {
            page: wrap_dec(t.page),
            ..t
        }),
{
    lemma_prev_ws_chain(t, t.num_workspaces as nat);
}

/// A page of 65536 zero cells.
fn zero_page_vec() -> (v: Vec<u16>)
    ensures
        v@ == zero_page(),
{
    let mut v: Vec<u16> = Vec::new();
    let mut i: usize = 0;
    while i < PAGE_CELLS
        invariant
            i <= PAGE_CELLS,
            v@.len() == i,
            forall|j: int| 0 <= j < i ==> v@[j] == 0u16,
        decreases PAGE_CELLS - i,
    {
        v.push(0u16);
        i += 1;
    }
    proof {
        assert(v@ =~= zero_page());
    }
    v
}

/// A paginated data tape: a sparse map of lazily materialized 65536-cell
/// pages, a small set of private workspace pages, and the pointer and page
/// registers.
pub struct DataTape {
    tapes: HashMap<u16, Vec<u16>>,
    pointer: u16,
    page: u16,
    max_pages: u32,
    num_workspaces: usize,
    workspaces: Vec<Vec<u16>>,
    workspace_pointer: usize,
}

impl View for DataTape {
    type V = TapeView;

    closed spec fn view(&self) -> TapeView {
        TapeView {
            pointer: self.pointer,
            page: self.page,
            max_pages: self.max_pages,
            workspace_index: self.workspace_pointer as int,
            num_workspaces: self.num_workspaces as int,
            mem: Map::new(
                |p: u16| true,
                |p: u16|
                    if self.tapes@.contains_key(p) {
                        self.tapes@[p]@
                    } else {
                        zero_page()
                    },
            ),
            workspaces: Seq::new(self.workspaces@.len(), |i: int| self.workspaces@[i]@),
        }
    }
}

impl DataTape {
    /// The representation invariant: every stored page, ordinary or
    /// workspace, holds exactly 65536 cells, and the workspace selector stays
    /// within the ring.
    pub closed spec fn inv(&self) -> bool {
        &&& self.workspace_pointer <= self.num_workspaces
        &&& self.workspaces@.len() == self.num_workspaces
        &&& forall|w: int|
            0 <= w < self.workspaces@.len() ==> (#[trigger] self.workspaces@[w])@.len()
                == PAGE_CELLS
        &&& forall|p: u16|
            self.tapes@.contains_key(p) ==> (#[trigger] self.tapes@[p])@.len() == PAGE_CELLS
    }

    /// The invariant carries over to the model.
    pub proof fn lemma_inv_wf(&self)
        requires
            self.inv(),
        ensures
            self@.wf(),
    {
    }

    /// Constructs an empty tape with a page limit and a number of private
    /// workspace pages. Ordinary pages are materialized on first touch.
    pub fn new_with_workspaces(max_pages: u32, num_workspaces: usize) -> (t: DataTape)
        ensures
            t.inv(),
            t@ == empty_tape_view(max_pages, num_workspaces as int),
    {
        let mut workspaces: Vec<Vec<u16>> = Vec::new();
        let mut i: usize = 0;
        while i < num_workspaces
            invariant
                i <= num_workspaces,
                workspaces@.len() == i,
                forall|j: int| 0 <= j < i ==> (#[trigger] workspaces@[j])@ == zero_page(),
            decreases num_workspaces - i,
        {
            workspaces.push(zero_page_vec());
            i += 1;
        }
        let t = DataTape {
            tapes: HashMap::new(),
            pointer: 0,
            page: 0,
            max_pages,
            num_workspaces,
            workspaces,
            workspace_pointer: 0,
        };
        proof {
            assert(t@.mem =~= empty_tape_view(max_pages, num_workspaces as int).mem);
            assert(t@.workspaces =~= empty_tape_view(max_pages, num_workspaces as int).workspaces);
            assert(t@ =~= empty_tape_view(max_pages, num_workspaces as int));
        }
        t
    }

    /// Constructs an empty tape with no workspace pages.
    pub fn new(max_pages: u32) -> (t: DataTape)
        ensures
            t.inv(),
            t@ == empty_tape_view(max_pages, 0),
    {
        DataTape::new_with_workspaces(max_pages, 0)
    }

    /// Sets the data pointer register; bounds are enforced only at access
    /// time, never here.
    pub fn set_pointer(&mut self, address: u16)
        requires
            old(self).inv(),
        ensures
            final(self).inv(),
            final(self)@ == (TapeView { pointer: address, ..old(self)@ }),
    {
        self.pointer = address;
    }

    /// Reads the data pointer register.
    pub fn get_pointer(&self) -> (r: u16)
        ensures
            r == self@.pointer,
    {
        self.pointer
    }

    /// Sets the page register; bounds are enforced only at access time,
    /// never here.
    pub fn set_page(&mut self, address: u16)
        requires
            old(self).inv(),
        ensures
            final(self).inv(),
            final(self)@ == (TapeView { page: address, ..old(self)@ }),
    {
        self.page = address;
    }

    /// Reads the page register.
    pub fn get_page(&self) -> (r: u16)
        ensures
            r == self@.page,
    {
        self.page
    }

    /// Reads the maximum number of accessible ordinary pages.
    pub fn get_max_pages(&self) -> (r: u32)
        ensures
            r == self@.max_pages,
    {
        self.max_pages
    }

    /// Writes `value` at the pointer: into the selected workspace page when
    /// one is selected (bypassing the page-limit check), otherwise into the
    /// active ordinary page, materializing it first if it was never touched.
    /// Fails with `InvalidPage` exactly when the access goes to ordinary
    /// memory and the page register is at or past the limit.
    pub fn set_value(&mut self, value: u16) -> (r: Result<(), VMErrKind>)
        requires
            old(self).inv(),
        ensures
            final(self).inv(),
            old(self)@.can_access() ==> r == Ok::<(), VMErrKind>(()) && final(self)@ == old(
                self,
            )@.write_cell(value),
            !old(self)@.can_access() ==> r == Err::<(), VMErrKind>(
                VMErrKind::InvalidPage(old(self)@.page, old(self)@.max_pages),
            ) && final(self)@ == old(self)@,
    {
        if self.workspace_pointer > 0 {
            let w = self.workspace_pointer - 1;
            let p = self.pointer as usize;
            let ghost pre = self@;
            let page_ref = &mut self.workspaces[w];
            page_ref.set(p, value);
            proof {
                assert(self@.workspaces =~= pre.write_cell(value).workspaces);
                assert(self@ =~= pre.write_cell(value));
            }
            return Ok(());
        }
        if self.page as u32 >= self.max_pages {
            return Err(VMErrKind::InvalidPage(self.page, self.max_pages));
        }
        let ghost pre = self@;
        let p = self.pointer as usize;
        match self.tapes.remove(&self.page) {
            Some(mut data) => {
                data.set(p, value);
                self.tapes.insert(self.page, data);
            },
            None => {
                let mut data = zero_page_vec();
                data.set(p, value);
                self.tapes.insert(self.page, data);
            },
        }
        proof {
            assert(self@.mem =~= pre.write_cell(value).mem);
            assert(self@ =~= pre.write_cell(value));
        }
        Ok(())
    }

    /// Reads the cell at the pointer: from the selected workspace page when
    /// one is selected (bypassing the page-limit check), otherwise from the
    /// active ordinary page. A page never written reads as `0` and is
    /// materialized as a side effect, which the model does not observe.
    /// Fails with `InvalidPage` exactly when the access goes to ordinary
    /// memory and the page register is at or past the limit.
    pub fn get_value(&mut self) -> (r: Result<u16, VMErrKind>)
        requires
            old(self).inv(),
        ensures
            final(self).inv(),
            final(self)@ == old(self)@,
            old(self)@.can_access() ==> r == Ok::<u16, VMErrKind>(old(self)@.read_cell()),
            !old(self)@.can_access() ==> r == Err::<u16, VMErrKind>(
                VMErrKind::InvalidPage(old(self)@.page, old(self)@.max_pages),
            ),
    {
        if self.workspace_pointer > 0 {
            return Ok(self.workspaces[self.workspace_pointer - 1][self.pointer as usize]);
        }
        if self.page as u32 >= self.max_pages {
            return Err(VMErrKind::InvalidPage(self.page, self.max_pages));
        }
        let ghost pre = self@;
        let p = self.pointer as usize;
        match self.tapes.get(&self.page) {
            Some(data) => Ok(data[p]),
            None => {
                self.tapes.insert(self.page, zero_page_vec());
                proof {
                    assert(self@.mem =~= pre.mem);
                    assert(self@ =~= pre);
                }
                Ok(0)
            },
        }
    }

    /// Advances the workspace ring: from the last workspace this steps the
    /// page register forward (wrapping modulo 65536) and returns to ordinary
    /// memory; otherwise it selects the next workspace.
    pub fn next_workspace(&mut self)
        requires
            old(self).inv(),
        ensures
            final(self).inv(),
            final(self)@ == next_ws_view(old(self)@),
    {
        if self.workspace_pointer == self.num_workspaces {
            self.page = self.page.wrapping_add(1);
            self.workspace_pointer = 0;
        } else {
            self.workspace_pointer += 1;
        }
    }

    /// Retreats on the workspace ring: from ordinary memory this steps the
    /// page register back (wrapping modulo 65536) and selects the last
    /// workspace; otherwise it selects the previous workspace.
    pub fn prev_workspace(&mut self)
        requires
            old(self).inv(),
        ensures
            final(self).inv(),
            final(self)@ == prev_ws_view(old(self)@),
    {
        if self.workspace_pointer == 0 {
            self.page = self.page.wrapping_sub(1);
            self.workspace_pointer = self.num_workspaces;
        } else {
            self.workspace_pointer -= 1;
        }
    }
}

} // verus!
