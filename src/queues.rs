//! Choice of the physical device and of the queue families and queues the
//! renderer uses for graphics, compute and transfer work.
use vstd::prelude::*;
use crate::error::InitError;

verus! {

/// `VK_QUEUE_GRAPHICS_BIT`.
pub const QUEUE_GRAPHICS: u32 = 1;

/// `VK_QUEUE_COMPUTE_BIT`.
pub const QUEUE_COMPUTE: u32 = 2;

/// `VK_QUEUE_TRANSFER_BIT`.
pub const QUEUE_TRANSFER: u32 = 4;

/// What the renderer reads of one queue family of the physical device.
#[derive(Clone, Copy, Debug, PartialEq, Eq, Structural)]
pub struct QueueFamilyInfo {
    /// Number of queues the family offers.
    pub queue_count: u32,
    /// The family's `VkQueueFlags`, as raw bits.
    pub flags: u32,
    /// Whether the family can present to the target surface.
    pub presentation: bool,
}

pub open spec fn has_graphics(flags: u32) -> bool {
    flags % 2 == 1
}

pub open spec fn has_compute(flags: u32) -> bool {
    (flags / 2) % 2 == 1
}

pub open spec fn has_transfer(flags: u32) -> bool {
    (flags / 4) % 2 == 1
}

/// Number of bits set in `x`.
pub open spec fn bit_count(x: nat) -> nat
    decreases x,
{
    if x == 0 {
        0
    } else {
        x % 2 + bit_count(x / 2)
    }
}

/// How many capability bits other than TRANSFER a family has: the fewer,
/// the more specialised it is for copies.
pub open spec fn specialisation(flags: u32) -> nat {
    if has_transfer(flags) {
        bit_count((flags - 4) as nat)
    } else {
        bit_count(flags as nat)
    }
}

/// Can draw and present to the surface.
pub open spec fn graphics_ok(f: QueueFamilyInfo) -> bool {
    f.queue_count > 0 && has_graphics(f.flags) && f.presentation
}

/// A compute family that does not also do graphics, and can present.
pub open spec fn compute_ok(f: QueueFamilyInfo) -> bool {
    f.queue_count > 0 && has_compute(f.flags) && !has_graphics(f.flags) && f.presentation
}

/// Can take copy commands.
pub open spec fn transfer_ok(f: QueueFamilyInfo) -> bool {
    f.queue_count > 0 && (has_transfer(f.flags) || has_graphics(f.flags) || has_compute(
        f.flags,
    ))
}

/// The family indices chosen for each kind of work, and their queue counts.
#[derive(Clone, Copy, Debug, PartialEq, Eq, Structural)]
pub struct QueueFamilies {
    pub graphics_queue_count: u32,
    pub graphics: u32,
    pub compute: u32,
    pub transfer: u32,
    pub compute_queue_count: u32,
    pub transfer_queue_count: u32,
}

/// `g` is the first family that can draw and present.
pub open spec fn is_graphics_choice(fams: Seq<QueueFamilyInfo>, g: int) -> bool {
    &&& 0 <= g < fams.len()
    &&& graphics_ok(fams[g])
    &&& forall|j: int| 0 <= j < g ==> !graphics_ok(#[trigger] fams[j])
}

/// `c` is the last dedicated compute family, or `g` when there is none.
pub open spec fn is_compute_choice(fams: Seq<QueueFamilyInfo>, g: int, c: int) -> bool {
    if exists|j: int| 0 <= j < fams.len() && compute_ok(#[trigger] fams[j]) {
        &&& 0 <= c < fams.len()
        &&& compute_ok(fams[c])
        &&& forall|j: int| c < j < fams.len() ==> !compute_ok(#[trigger] fams[j])
    } else {
        c == g
    }
}

/// `t` is the most specialised transfer family; the graphics family `g`
/// wins every tie it takes part in, otherwise the first of the tied ones.
pub open spec fn is_transfer_choice(fams: Seq<QueueFamilyInfo>, g: int, t: int) -> bool {
    &&& 0 <= t < fams.len()
    &&& transfer_ok(fams[t])
    &&& forall|j: int|
        0 <= j < fams.len() && transfer_ok(#[trigger] fams[j]) ==> specialisation(fams[t].flags)
            <= specialisation(fams[j].flags)
    &&& specialisation(fams[t].flags) == specialisation(fams[g].flags) ==> t == g
    &&& t != g ==> forall|j: int|
        0 <= j < t && transfer_ok(#[trigger] fams[j]) ==> specialisation(fams[t].flags)
            < specialisation(fams[j].flags)
}

impl QueueFamilies {
    /// Each chosen family exists and has at least one queue.
    pub open spec fn wf(&self) -> bool {
        &&& self.graphics_queue_count > 0
        &&& self.compute_queue_count > 0
        &&& self.transfer_queue_count > 0
        &&& self.compute == self.graphics ==> self.compute_queue_count == self.graphics_queue_count
        &&& self.transfer == self.graphics ==> self.transfer_queue_count == self.graphics_queue_count
        &&& self.transfer == self.compute ==> self.transfer_queue_count == self.compute_queue_count
    }

    /// The selection that `new` makes from `fams`.
    pub open spec fn chosen_from(&self, fams: Seq<QueueFamilyInfo>) -> bool {
        &&& is_graphics_choice(fams, self.graphics as int)
        &&& is_compute_choice(fams, self.graphics as int, self.compute as int)
        &&& is_transfer_choice(fams, self.graphics as int, self.transfer as int)
        &&& self.graphics_queue_count == fams[self.graphics as int].queue_count
        &&& self.compute_queue_count == fams[self.compute as int].queue_count
        &&& self.transfer_queue_count == fams[self.transfer as int].queue_count
    }

    /// Chooses the graphics, compute and transfer families among those of a
    /// physical device, in the order the driver lists them.
    pub fn new(fams: &Vec<QueueFamilyInfo>) -> (r: Result<QueueFamilies, InitError>)
        requires
            fams@.len() <= u32::MAX,
        ensures
            match r {
                Ok(q) => q.chosen_from(fams@) && q.wf(),
                Err(e) => (e matches InitError::DeviceSelectionError(_)) && forall|j: int|
                    0 <= j < fams@.len() ==> !graphics_ok(#[trigger] fams@[j]),
            },
            r.is_err() <==> forall|j: int| 0 <= j < fams@.len() ==> !graphics_ok(#[trigger] fams@[j]),
    {
        let n = fams.len();
        let mut graphics: Option<usize> = None;
        let mut compute: Option<usize> = None;
        let mut i: usize = 0;
        while i < n
            invariant
                n == fams@.len(),
                i <= n,
                match graphics {
                    Some(g) => is_graphics_choice(fams@, g as int),
                    None => forall|j: int| 0 <= j < i ==> !graphics_ok(#[trigger] fams@[j]),
                },
                match graphics {
                    Some(g) => g < i,
                    None => true,
                },
                match compute {
                    Some(c) => c < i && compute_ok(fams@[c as int]) && forall|j: int|
                        c < j < i ==> !compute_ok(#[trigger] fams@[j]),
                    None => forall|j: int| 0 <= j < i ==> !compute_ok(#[trigger] fams@[j]),
                },
            decreases n - i,
        {
            let f = fams[i];
            if graphics.is_none() && f.queue_count > 0 && f.flags % 2 == 1 && f.presentation {
                graphics = Some(i);
            }
            if f.queue_count > 0 && (f.flags / 2) % 2 == 1 && f.flags % 2 == 0 && f.presentation {
                compute = Some(i);
            }
            i = i + 1;
        }
        let g = match graphics {
            Some(g) => g,
            None => {
                return Err(InitError::DeviceSelectionError("No valid queues exist for graphics!"));
            },
        };
        let c = match compute {
            Some(c) => c,
            None => g,
        };
        let t = choose_transfer_family(fams, g);
        Ok(QueueFamilies {
            graphics_queue_count: fams[g].queue_count,
            graphics: g as u32,
            compute: c as u32,
            transfer: t as u32,
            compute_queue_count: fams[c].queue_count,
            transfer_queue_count: fams[t].queue_count,
        })
    }
}

proof fn lemma_bit_count_bounded(x: nat)
    ensures
        bit_count(x) <= x,
    decreases x,
{
    if x > 0 {
        lemma_bit_count_bounded(x / 2);
    }
}

/// Counts the bits set in `x`, lowest first.
fn count_bits(x: u32) -> (r: u32)
    ensures
        r == bit_count(x as nat),
{
    proof {
        lemma_bit_count_bounded(x as nat);
    }
    let mut v: u32 = x;
    let mut c: u32 = 0;
    while v > 0
        invariant
            c + bit_count(v as nat) == bit_count(x as nat),
            bit_count(x as nat) <= x,
        decreases v,
    {
        c = c + v % 2;
        v = v / 2;
    }
    c
}

/// The count of capability bits other than TRANSFER.
fn specialisation_of(flags: u32) -> (r: u32)
    ensures
        r == specialisation(flags),
{
    if (flags / 4) % 2 == 1 {
        count_bits(flags - 4)
    } else {
        count_bits(flags)
    }
}

/// The transfer family: starting from the graphics family, a strictly more
/// specialised family always displaces the current choice.
fn choose_transfer_family(fams: &Vec<QueueFamilyInfo>, g: usize) -> (t: usize)
    requires
        g < fams@.len(),
        graphics_ok(fams@[g as int]),
    ensures
        is_transfer_choice(fams@, g as int, t as int),
{
    let n = fams.len();
    let mut best: usize = g;
    let mut best_score: u32 = specialisation_of(fams[g].flags);
    let mut i: usize = 0;
    while i < n
        invariant
            n == fams@.len(),
            i <= n,
            g < n,
            graphics_ok(fams@[g as int]),
            best < n,
            transfer_ok(fams@[best as int]),
            best_score == specialisation(fams@[best as int].flags),
            forall|j: int|
                0 <= j < i && transfer_ok(#[trigger] fams@[j]) ==> best_score <= specialisation(
                    fams@[j].flags,
                ),
            best_score <= specialisation(fams@[g as int].flags),
            best == g || (best < i && best_score < specialisation(fams@[g as int].flags)),
            best != g ==> forall|j: int|
                0 <= j < best && transfer_ok(#[trigger] fams@[j]) ==> best_score
                    < specialisation(fams@[j].flags),
        decreases n - i,
    {
        let f = fams[i];
        if f.queue_count > 0 && (f.flags % 2 == 1 || (f.flags / 2) % 2 == 1 || (f.flags / 4) % 2
            == 1) {
            let score = specialisation_of(f.flags);
            if score < best_score {
                best = i;
                best_score = score;
            }
        }
        i = i + 1;
    }
    best
}

/// One queue of the logical device: its family and its index in the family.
#[derive(Clone, Copy, Debug, PartialEq, Eq, Structural)]
pub struct QueueSlot {
    pub family: u32,
    pub index: u32,
}

/// A request, at device creation, for `count` queues of one family.
#[derive(Clone, Copy, Debug, PartialEq, Eq, Structural)]
pub struct QueueRequest {
    pub family: u32,
    pub count: u32,
}

/// The queues to create, and which of them each kind of work uses.
#[derive(Debug)]
pub struct QueuePlan {
    pub requests: Vec<QueueRequest>,
    pub graphics: QueueSlot,
    pub compute: QueueSlot,
    pub transfer: QueueSlot,
}

/// The graphics queue is the first queue of its family.
pub open spec fn graphics_slot(q: QueueFamilies) -> QueueSlot {
    QueueSlot { family: q.graphics, index: 0 }
}

/// Compute gets a queue of its own, in the graphics family when the two
/// families coincide and it has a second queue; else it shares the graphics
/// queue.
pub open spec fn compute_slot(q: QueueFamilies) -> QueueSlot {
    if q.compute == q.graphics {
        if q.graphics_queue_count > 1 {
            QueueSlot { family: q.graphics, index: 1 }
        } else {
            graphics_slot(q)
        }
    } else {
        QueueSlot { family: q.compute, index: 0 }
    }
}

/// Transfer takes the next free queue of its family when there is one, and
/// else shares the last queue taken in that family.
pub open spec fn transfer_slot(q: QueueFamilies) -> QueueSlot {
    if q.transfer == q.graphics {
        let taken: u32 = if q.compute == q.graphics { (compute_slot(q).index + 1) as u32 } else { 1 };
        if q.graphics_queue_count > taken {
            QueueSlot { family: q.graphics, index: taken }
        } else {
            QueueSlot { family: q.graphics, index: (taken - 1) as u32 }
        }
    } else if q.transfer == q.compute {
        if q.compute_queue_count > 1 {
            QueueSlot { family: q.compute, index: 1 }
        } else {
            QueueSlot { family: q.compute, index: 0 }
        }
    } else {
        QueueSlot { family: q.transfer, index: 0 }
    }
}

/// How many queues of `family` the three slots use.
pub open spec fn queues_used(q: QueueFamilies, family: u32) -> nat {
    let g = graphics_slot(q);
    let c = compute_slot(q);
    let t = transfer_slot(q);
    let a: nat = if g.family == family { g.index as nat + 1 } else { 0 };
    let b: nat = if c.family == family && c.index as nat + 1 > a { c.index as nat + 1 } else { a };
    if t.family == family && t.index as nat + 1 > b { t.index as nat + 1 } else { b }
}

/// One request per distinct family, graphics first, then compute, then
/// transfer.
pub open spec fn requests_for(q: QueueFamilies) -> Seq<QueueRequest> {
    let g = seq![QueueRequest { family: q.graphics, count: queues_used(q, q.graphics) as u32 }];
    let gc = if q.compute != q.graphics {
        g.push(QueueRequest { family: q.compute, count: queues_used(q, q.compute) as u32 })
    } else {
        g
    };
    if q.transfer != q.graphics && q.transfer != q.compute {
        gc.push(QueueRequest { family: q.transfer, count: queues_used(q, q.transfer) as u32 })
    } else {
        gc
    }
}

/// The queue count of `family`, one of the three chosen families.
pub open spec fn family_queue_count(q: QueueFamilies, family: u32) -> u32 {
    if family == q.graphics {
        q.graphics_queue_count
    } else if family == q.compute {
        q.compute_queue_count
    } else {
        q.transfer_queue_count
    }
}

impl QueuePlan {
    /// The plan for the chosen families `q`.
    pub open spec fn planned_for(&self, q: QueueFamilies) -> bool {
        &&& self.requests@ == requests_for(q)
        &&& self.graphics == graphics_slot(q)
        &&& self.compute == compute_slot(q)
        &&& self.transfer == transfer_slot(q)
    }

    /// Decides which queues to create and how the graphics, compute and
    /// transfer work share them.
    pub fn new(q: &QueueFamilies) -> (r: QueuePlan)
        requires
            q.wf(),
        ensures
            r.planned_for(*q),
    {
        let graphics = QueueSlot { family: q.graphics, index: 0 };
        let compute = if q.compute == q.graphics {
            if q.graphics_queue_count > 1 {
                QueueSlot { family: q.graphics, index: 1 }
            } else {
                graphics
            }
        } else {
            QueueSlot { family: q.compute, index: 0 }
        };
        let transfer = if q.transfer == q.graphics {
            let taken: u32 = if q.compute == q.graphics { compute.index + 1 } else { 1 };
            if q.graphics_queue_count > taken {
                QueueSlot { family: q.graphics, index: taken }
            } else {
                QueueSlot { family: q.graphics, index: taken - 1 }
            }
        } else if q.transfer == q.compute {
            if q.compute_queue_count > 1 {
                QueueSlot { family: q.compute, index: 1 }
            } else {
                QueueSlot { family: q.compute, index: 0 }
            }
        } else {
            QueueSlot { family: q.transfer, index: 0 }
        };
        let mut requests: Vec<QueueRequest> = Vec::new();
        requests.push(
            QueueRequest { family: q.graphics, count: used_in(graphics, compute, transfer, q.graphics) },
        );
        if q.compute != q.graphics {
            requests.push(
                QueueRequest {
                    family: q.compute,
                    count: used_in(graphics, compute, transfer, q.compute),
                },
            );
        }
        if q.transfer != q.graphics && q.transfer != q.compute {
            requests.push(
                QueueRequest {
                    family: q.transfer,
                    count: used_in(graphics, compute, transfer, q.transfer),
                },
            );
        }
        QueuePlan { requests, graphics, compute, transfer }
    }
}

/// How many queues of `family` the slots `g`, `c` and `t` use.
fn used_in(g: QueueSlot, c: QueueSlot, t: QueueSlot, family: u32) -> (r: u32)
    requires
        g.index < 3,
        c.index < 3,
        t.index < 3,
    ensures
        r == ({
            let a: nat = if g.family == family { g.index as nat + 1 } else { 0 };
            let b: nat = if c.family == family && c.index as nat + 1 > a { c.index as nat + 1 } else { a };
            if t.family == family && t.index as nat + 1 > b { t.index as nat + 1 } else { b }
        }),
{
    let a: u32 = if g.family == family { g.index + 1 } else { 0 };
    let b: u32 = if c.family == family && c.index + 1 > a { c.index + 1 } else { a };
    if t.family == family && t.index + 1 > b { t.index + 1 } else { b }
}

/// Every queue a role uses is among those requested for its family, and no
/// request asks a family for more queues than it has.
pub proof fn lemma_plan_fits(q: QueueFamilies)
    requires
        q.wf(),
    ensures
        forall|k: int|
            0 <= k < requests_for(q).len() ==> 0 < (#[trigger] requests_for(q)[k]).count
                <= family_queue_count(q, requests_for(q)[k].family),
        forall|k: int, l: int|
            0 <= k < l < requests_for(q).len() ==> requests_for(q)[k].family != requests_for(
                q,
            )[l].family,
        exists|k: int|
            0 <= k < requests_for(q).len() && requests_for(q)[k].family == graphics_slot(q).family
                && graphics_slot(q).index < (#[trigger] requests_for(q)[k]).count,
        exists|k: int|
            0 <= k < requests_for(q).len() && requests_for(q)[k].family == compute_slot(q).family
                && compute_slot(q).index < (#[trigger] requests_for(q)[k]).count,
        exists|k: int|
            0 <= k < requests_for(q).len() && requests_for(q)[k].family == transfer_slot(q).family
                && transfer_slot(q).index < (#[trigger] requests_for(q)[k]).count,
{
    let rs = requests_for(q);
    assert(rs[0].family == q.graphics);
    if q.compute != q.graphics {
        assert(rs[1].family == q.compute);
    }
    if q.transfer != q.graphics && q.transfer != q.compute {
        if q.compute != q.graphics {
            assert(rs[2].family == q.transfer);
        } else {
            assert(rs[1].family == q.transfer);
        }
    }
}

/// `i` is the last discrete GPU of the list.
pub open spec fn is_last_discrete(discrete: Seq<bool>, i: int) -> bool {
    &&& 0 <= i < discrete.len()
    &&& discrete[i]
    &&& forall|j: int| i < j < discrete.len() ==> !#[trigger] discrete[j]
}

/// Picks the physical device to render with: the last discrete GPU in the
/// order the driver enumerates them (`discrete[i]` says whether device `i`
/// is one).
pub fn choose_physical_device(discrete: &Vec<bool>) -> (r: Result<usize, InitError>)
    ensures
        match r {
            Ok(i) => is_last_discrete(discrete@, i as int),
            Err(e) => (e matches InitError::DeviceSelectionError(_)) && forall|j: int|
                0 <= j < discrete@.len() ==> !#[trigger] discrete@[j],
        },
        r.is_err() <==> forall|j: int| 0 <= j < discrete@.len() ==> !#[trigger] discrete@[j],
{
    let mut chosen: Option<usize> = None;
    let mut i: usize = 0;
    while i < discrete.len()
        invariant
            i <= discrete@.len(),
            match chosen {
                Some(c) => c < i && discrete@[c as int] && forall|j: int|
                    c < j < i ==> !#[trigger] discrete@[j],
                None => forall|j: int| 0 <= j < i ==> !#[trigger] discrete@[j],
            },
        decreases discrete@.len() - i,
    {
        if discrete[i] {
            chosen = Some(i);
        }
        i = i + 1;
    }
    match chosen {
        Some(c) => Ok(c),
        None => Err(InitError::DeviceSelectionError("No discrete GPU found!")),
    }
}

} // verus!
