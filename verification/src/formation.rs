//! The formation allocator: every newly spawned enemy is assigned to a
//! shared elliptical orbit with bounded membership. A formation is
//! immutable except for its `angle`, which whichever member is closest to
//! its target advances for the whole group.

use vstd::prelude::*;

verus! {

use crate::geom::{Vec2, WinSize};
use crate::rng::{coin_flip, pick_in_range};
use crate::{MAX_FORMATION_MEMBERS, POS_LIMIT, RADIUS_LIMIT};

/// A shared elliptical motion template: enemies orbit the ellipse centred
/// at `offset` with half-axes `radius`, entering the field at `start`.
/// `angle` is the current orbit parameter in microradians.
#[derive(Clone, Copy, PartialEq, Eq, Structural, Debug)]
pub struct Formation {
    pub group_id: u32,
    pub offset: Vec2,
    pub radius: Vec2,
    pub start: Vec2,
    pub angle: i64,
}

impl Formation {
    pub open spec fn wf(self) -> bool {
        &&& self.offset.within(POS_LIMIT)
        &&& self.start.within(POS_LIMIT)
        &&& 0 < self.radius.x <= RADIUS_LIMIT
        &&& 0 < self.radius.y <= RADIUS_LIMIT
    }
}

/// The geometry drawn at random for a prospective new formation; the
/// allocator turns it into a `Formation` when the current one is full.
#[derive(Clone, Copy, PartialEq, Eq, Structural, Debug)]
pub struct FormationLayout {
    pub start: Vec2,
    pub offset: Vec2,
    pub radius: Vec2,
}

impl FormationLayout {
    pub open spec fn wf(self) -> bool {
        &&& self.offset.within(POS_LIMIT)
        &&& self.start.within(POS_LIMIT)
        &&& 0 < self.radius.x <= RADIUS_LIMIT
        &&& 0 < self.radius.y <= RADIUS_LIMIT
    }
}

/// Draws the geometry for a new formation: the start point sits just
/// outside the left or right window edge at a random height that keeps a
/// 100-pixel margin, the ellipse centre is offset at random into the
/// upper half of the window, and the horizontal radius is drawn from
/// [80, 150) pixels while the vertical radius is fixed at 100 pixels.
pub fn roll_layout(win: &WinSize) -> (l: FormationLayout)
    requires
        win.wf(),
        win.h / 2 - 100_000 >= 1,
        win.w / 4 >= 1,
    ensures
        l.wf(),
        l.start.x == win.w || l.start.x == -win.w,
        -(win.h / 2 - 100_000) <= l.start.y < win.h / 2 - 100_000,
        -(win.w / 4) <= l.offset.x < win.w / 4,
        0 <= l.offset.y < win.h / 2 - 100_000,
        80_000 <= l.radius.x < 150_000,
        l.radius.y == 100_000,
{
    let h_span: i64 = win.h / 2 - 100_000;
    let w_spawn: i64 = win.w / 4;
    let x: i64 = if coin_flip() {
        win.w
    } else {
        -win.w
    };
    let y: i64 = pick_in_range(-h_span, h_span);
    let ox: i64 = pick_in_range(-w_spawn, w_spawn);
    let oy: i64 = pick_in_range(0, h_span);
    let rx: i64 = pick_in_range(80_000, 150_000);
    FormationLayout {
        start: Vec2 { x, y },
        offset: Vec2 { x: ox, y: oy },
        radius: Vec2 { x: rx, y: 100_000 },
    }
}

/// The allocator's session state: the id sequence, the formation that is
/// currently filling up, and how many enemies it holds so far.
#[derive(Clone, Copy, Debug)]
pub struct FormationMaker {
    pub group_seq: u32,
    pub current_formation: Option<Formation>,
    pub current_formation_members: u32,
}

impl Default for FormationMaker {
    /// A fresh session has issued no group ids and holds no formation.
    fn default() -> (m: Self)
        ensures
            m == (FormationMaker {
                group_seq: 0,
                current_formation: None,
                current_formation_members: 0,
            }),
            m.wf(),
    {
        FormationMaker { group_seq: 0, current_formation: None, current_formation_members: 0 }
    }
}

impl FormationMaker {
    pub open spec fn wf(self) -> bool {
        &&& self.current_formation is None ==> self.current_formation_members == 0
        &&& self.current_formation matches Some(f) ==> {
            &&& f.wf()
            &&& f.group_id == self.group_seq
            &&& 1 <= self.current_formation_members <= MAX_FORMATION_MEMBERS
        }
    }

    /// The next call must start a new formation: none is current, or the
    /// current one has reached the membership cap.
    pub open spec fn needs_new_spec(self) -> bool {
        self.current_formation is None
            || self.current_formation_members >= MAX_FORMATION_MEMBERS
    }

    /// The formation a fresh allocation would build: the next id in the
    /// sequence, the drawn geometry, and the given initial bearing.
    pub open spec fn fresh_formation(self, layout: FormationLayout, bearing: i64) -> Formation {
        Formation {
            group_id: (self.group_seq + 1) as u32,
            offset: layout.offset,
            radius: layout.radius,
            start: layout.start,
            angle: bearing,
        }
    }

    /// What `make` returns.
    pub open spec fn make_result(self, layout: FormationLayout, bearing: i64) -> Formation {
        if self.needs_new_spec() {
            self.fresh_formation(layout, bearing)
        } else {
            self.current_formation.unwrap()
        }
    }

    /// The allocator state after `make`.
    pub open spec fn make_next(self, layout: FormationLayout, bearing: i64) -> FormationMaker {
        if self.needs_new_spec() {
            FormationMaker {
                group_seq: (self.group_seq + 1) as u32,
                current_formation: Some(self.fresh_formation(layout, bearing)),
                current_formation_members: 1,
            }
        } else {
            FormationMaker {
                current_formation_members: (self.current_formation_members + 1) as u32,
                ..self
            }
        }
    }

    /// Whether the next allocation will start a new formation.
    pub fn needs_new(&self) -> (b: bool)
        ensures
            b == self.needs_new_spec(),
    {
        match &self.current_formation {
            None => true,
            Some(_) => self.current_formation_members >= MAX_FORMATION_MEMBERS,
        }
    }

    /// Assign one enemy to a formation. While the current formation has
    /// room, it is returned unchanged and its membership grows by one;
    /// otherwise a new formation with the next group id is built from the
    /// drawn `layout` and the initial `bearing` (in microradians), becomes
    /// current, and starts with one member.
    pub fn make(&mut self, layout: &FormationLayout, bearing: i64) -> (f: Formation)
        requires
            old(self).wf(),
            layout.wf(),
            old(self).group_seq < u32::MAX,
        ensures
            f == old(self).make_result(*layout, bearing),
            *final(self) == old(self).make_next(*layout, bearing),
            final(self).wf(),
            f.wf(),
    {
        let cur = self.current_formation;
        match cur {
            Some(tmpl) => {
                if self.current_formation_members < MAX_FORMATION_MEMBERS {
                    self.current_formation_members = self.current_formation_members + 1;
                    return tmpl;
                }
            }
            None => {}
        }
        self.group_seq = self.group_seq + 1;
        let f = Formation {
            group_id: self.group_seq,
            offset: layout.offset,
            radius: layout.radius,
            start: layout.start,
            angle: bearing,
        };
        self.current_formation = Some(f);
        self.current_formation_members = 1;
        f
    }
}

/// Law: once the membership cap is reached (or nothing is current), the
/// next allocation issues a group id strictly greater than the whole id
/// sequence so far — and so strictly greater than every id issued before,
/// since every issued id is at most the sequence counter.
pub proof fn lemma_full_formation_retires_group(
    m: FormationMaker,
    layout: FormationLayout,
    bearing: i64,
)
    requires
        m.wf(),
        m.needs_new_spec(),
        m.group_seq < u32::MAX,
    ensures
        m.make_result(layout, bearing).group_id > m.group_seq,
        m.make_result(layout, bearing).group_id == m.make_next(layout, bearing).group_seq,
{
}

/// Law: while the current formation has room, allocations return it
/// unchanged — in particular the first `MAX_FORMATION_MEMBERS` calls
/// after a reset all return the same group id — and only its membership
/// count moves.
pub proof fn lemma_members_share_group(m: FormationMaker, layout: FormationLayout, bearing: i64)
    requires
        m.wf(),
        !m.needs_new_spec(),
    ensures
        m.make_result(layout, bearing) == m.current_formation.unwrap(),
        m.make_result(layout, bearing).group_id == m.group_seq,
        m.make_next(layout, bearing).group_seq == m.group_seq,
        m.make_next(layout, bearing).current_formation == m.current_formation,
        m.make_next(layout, bearing).current_formation_members
            == m.current_formation_members + 1,
{
}

/// The group ids a run of allocations issues, starting from `m`: one id
/// per input pair of drawn layout and initial bearing, in call order.
pub open spec fn allocation_ids(
    m: FormationMaker,
    inputs: Seq<(FormationLayout, i64)>,
) -> Seq<u32>
    decreases inputs.len(),
{
    if inputs.len() == 0 {
        Seq::empty()
    } else {
        seq![m.make_result(inputs[0].0, inputs[0].1).group_id] + allocation_ids(
            m.make_next(inputs[0].0, inputs[0].1),
            inputs.drop_first(),
        )
    }
}

/// The allocator state after a run of allocations.
pub open spec fn allocator_after(
    m: FormationMaker,
    inputs: Seq<(FormationLayout, i64)>,
) -> FormationMaker
    decreases inputs.len(),
{
    if inputs.len() == 0 {
        m
    } else {
        allocator_after(m.make_next(inputs[0].0, inputs[0].1), inputs.drop_first())
    }
}

/// A run of allocations keeps the allocator well formed, moves the id
/// sequence counter up by at most one per call, and issues only ids the
/// counter has reached.
pub proof fn lemma_run_preserves_wf(m: FormationMaker, inputs: Seq<(FormationLayout, i64)>)
    requires
        m.wf(),
        forall|i: int| 0 <= i < inputs.len() ==> (#[trigger] inputs[i].0).wf(),
        m.group_seq + inputs.len() <= u32::MAX,
    ensures
        allocator_after(m, inputs).wf(),
        m.group_seq <= allocator_after(m, inputs).group_seq <= m.group_seq + inputs.len(),
        allocation_ids(m, inputs).len() == inputs.len(),
        forall|i: int|
            0 <= i < inputs.len() ==> allocation_ids(m, inputs)[i] <= allocator_after(
                m,
                inputs,
            ).group_seq,
    decreases inputs.len(),
{
    if inputs.len() > 0 {
        let m1 = m.make_next(inputs[0].0, inputs[0].1);
        let rest = inputs.drop_first();
        assert(forall|i: int| 0 <= i < rest.len() ==> (#[trigger] rest[i].0).wf());
        lemma_run_preserves_wf(m1, rest);
        assert(forall|i: int|
            1 <= i < inputs.len() ==> allocation_ids(m, inputs)[i] == allocation_ids(m1, rest)[i - 1]);
    }
}

/// Law: once the membership cap is reached — or nothing is current —
/// the next allocation returns a formation whose group id strictly
/// exceeds every id any earlier allocation of the session returned.
pub proof fn lemma_new_group_exceeds_all_previous(
    m0: FormationMaker,
    inputs: Seq<(FormationLayout, i64)>,
    layout: FormationLayout,
    bearing: i64,
)
    requires
        m0.wf(),
        forall|i: int| 0 <= i < inputs.len() ==> (#[trigger] inputs[i].0).wf(),
        m0.group_seq + inputs.len() < u32::MAX,
        allocator_after(m0, inputs).needs_new_spec(),
    ensures
        forall|i: int|
            0 <= i < inputs.len() ==> allocator_after(m0, inputs).make_result(
                layout,
                bearing,
            ).group_id > allocation_ids(m0, inputs)[i],
{
    lemma_run_preserves_wf(m0, inputs);
}

/// Every allocation of a run that starts inside a formation with room
/// for the whole run returns the current group id.
proof fn lemma_sharing_run(m: FormationMaker, inputs: Seq<(FormationLayout, i64)>)
    requires
        m.wf(),
        m.current_formation is Some,
        m.current_formation_members + inputs.len() <= MAX_FORMATION_MEMBERS,
    ensures
        forall|i: int| 0 <= i < inputs.len() ==> allocation_ids(m, inputs)[i] == m.group_seq,
    decreases inputs.len(),
{
    if inputs.len() > 0 {
        let m1 = m.make_next(inputs[0].0, inputs[0].1);
        let rest = inputs.drop_first();
        lemma_sharing_run(m1, rest);
        assert(forall|i: int|
            1 <= i < inputs.len() ==> allocation_ids(m, inputs)[i] == allocation_ids(m1, rest)[i - 1]);
    }
}

/// Law: after a reset — the allocator needs a new formation — the first
/// `MAX_FORMATION_MEMBERS` allocations all return the identical group
/// id, namely the one past the counter at the reset.
pub proof fn lemma_first_members_share_id(
    m0: FormationMaker,
    inputs: Seq<(FormationLayout, i64)>,
)
    requires
        m0.wf(),
        m0.needs_new_spec(),
        forall|i: int| 0 <= i < inputs.len() ==> (#[trigger] inputs[i].0).wf(),
        1 <= inputs.len() <= MAX_FORMATION_MEMBERS,
        m0.group_seq < u32::MAX,
    ensures
        forall|i: int|
            0 <= i < inputs.len() ==> allocation_ids(m0, inputs)[i] == m0.group_seq + 1,
{
    let m1 = m0.make_next(inputs[0].0, inputs[0].1);
    let rest = inputs.drop_first();
    lemma_sharing_run(m1, rest);
    assert(forall|i: int|
        1 <= i < inputs.len() ==> allocation_ids(m0, inputs)[i] == allocation_ids(m1, rest)[i - 1]);
}

/// Law: every allocation returns a formation whose id equals the id
/// sequence counter after the call, and the counter never decreases; so
/// issued ids never repeat once the counter has moved past them.
pub proof fn lemma_issued_id_tracks_sequence(
    m: FormationMaker,
    layout: FormationLayout,
    bearing: i64,
)
    requires
        m.wf(),
        m.group_seq < u32::MAX,
    ensures
        m.make_result(layout, bearing).group_id == m.make_next(layout, bearing).group_seq,
        m.make_next(layout, bearing).group_seq >= m.group_seq,
{
}

} // verus!
