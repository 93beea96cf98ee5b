//! Tracking fingers on the touch screen from the kernel's multitouch
//! events: each slot remembers its finger, and a report lists the slots
//! that changed since the last one.

use vstd::prelude::*;

verus! {

/// Event type: end of a group of events.
pub const EV_SYN: u16 = 0x00;
/// Event type: an absolute axis changed.
pub const EV_ABS: u16 = 0x03;
/// Synchronisation code: a full report.
pub const SYN_REPORT: u16 = 0x00;
/// Axis: the slot that the following events are about.
pub const ABS_MT_SLOT: u16 = 0x2f;
/// Axis: the finger's tracking id, -1 when it is lifted.
pub const ABS_MT_TRACKING_ID: u16 = 0x39;
/// Axis: the finger's x position.
pub const ABS_MT_POSITION_X: u16 = 0x35;
/// Axis: the finger's y position.
pub const ABS_MT_POSITION_Y: u16 = 0x36;
/// The number of touch slots tracked.
pub const MAX_SLOTS: usize = 10;

/// The size in bytes of the kernel's input event record on a 64-bit
/// machine: two 8-byte time fields, the 2-byte type and code, the 4-byte
/// value.
pub const INPUT_EVENT_SIZE: usize = 24;

/// The value of two bytes, least significant first.
pub open spec fn le16(b0: u8, b1: u8) -> int {
    b0 + 256 * b1
}

/// The value of four bytes, least significant first.
pub open spec fn le32(b0: u8, b1: u8, b2: u8, b3: u8) -> int {
    b0 + 256 * b1 + 65536 * b2 + 16777216 * b3
}

/// Reads the type, code and value of an input event record of a
/// little-endian machine.
pub fn decode_event(buf: &[u8]) -> (r: (u16, u16, i32))
    requires
        buf@.len() >= INPUT_EVENT_SIZE,
    ensures
        r.0 == le16(buf@[16], buf@[17]),
        r.1 == le16(buf@[18], buf@[19]),
        r.2 == (le32(buf@[20], buf@[21], buf@[22], buf@[23]) as u32) as i32,
{
    let type_ = buf[16] as u16 + (buf[17] as u16) * 256;
    let code = buf[18] as u16 + (buf[19] as u16) * 256;
    let v: u32 = buf[20] as u32 + (buf[21] as u32) * 256 + (buf[22] as u32) * 65536 + (buf[23] as u32)
        * 16777216;
    (type_, code, v as i32)
}

/// What is known of one touch slot.
#[derive(PartialEq, Eq, Structural, Copy, Clone, Debug)]
pub struct TouchSlot {
    pub tracking_id: i32,
    pub x: i32,
    pub y: i32,
    pub active: bool,
    pub changed: bool,
}

/// A changed slot as reported: raw position, tracking id, and whether the
/// finger is down.
#[derive(PartialEq, Eq, Structural, Copy, Clone, Debug)]
pub struct RawTouch {
    pub x: i32,
    pub y: i32,
    pub tracking_id: i32,
    pub active: bool,
}

/// The state of all touch slots.
pub struct TouchTracker {
    slots: Vec<TouchSlot>,
    current_slot: usize,
}

/// The abstract state of the tracker.
pub struct TouchModel {
    pub slots: Seq<TouchSlot>,
    pub current: int,
}

/// A slot with no finger.
pub open spec fn empty_slot() -> TouchSlot {
    TouchSlot { tracking_id: -1i32, x: 0i32, y: 0i32, active: false, changed: false }
}

/// The reports for the changed slots, in slot order.
pub open spec fn reports(slots: Seq<TouchSlot>) -> Seq<RawTouch>
    decreases slots.len(),
{
    if slots.len() == 0 {
        Seq::empty()
    } else {
        let rest = reports(slots.drop_last());
        let s = slots.last();
        if s.changed {
            rest.push(RawTouch { x: s.x, y: s.y, tracking_id: s.tracking_id, active: s.active })
        } else {
            rest
        }
    }
}

/// The slots after a report: nothing is marked as changed.
pub open spec fn settled(slots: Seq<TouchSlot>) -> Seq<TouchSlot> {
    slots.map_values(|s: TouchSlot| TouchSlot { changed: false, ..s })
}

/// What one input event does to the tracker, and the reports it gives.
pub open spec fn spec_touch_event(m: TouchModel, type_: u16, code: u16, value: i32) -> (TouchModel, Seq<RawTouch>) {
    if type_ == EV_ABS {
        if code == ABS_MT_SLOT {
            (
                TouchModel {
                    current: if 0 <= value < MAX_SLOTS {
                        value as int
                    } else {
                        0
                    },
                    ..m
                },
                Seq::empty(),
            )
        } else if code == ABS_MT_TRACKING_ID {
            let s = m.slots[m.current];
            let s2 = if value == -1 {
                TouchSlot { active: false, changed: true, ..s }
            } else {
                TouchSlot { tracking_id: value, active: true, changed: true, ..s }
            };
            (TouchModel { slots: m.slots.update(m.current, s2), ..m }, Seq::empty())
        } else if code == ABS_MT_POSITION_X {
            let s = m.slots[m.current];
            (
                TouchModel { slots: m.slots.update(m.current, TouchSlot { x: value, changed: true, ..s }), ..m },
                Seq::empty(),
            )
        } else if code == ABS_MT_POSITION_Y {
            let s = m.slots[m.current];
            (
                TouchModel { slots: m.slots.update(m.current, TouchSlot { y: value, changed: true, ..s }), ..m },
                Seq::empty(),
            )
        } else {
            (m, Seq::empty())
        }
    } else if type_ == EV_SYN && code == SYN_REPORT {
        (TouchModel { slots: settled(m.slots), ..m }, reports(m.slots))
    } else {
        (m, Seq::empty())
    }
}

impl TouchModel {
    /// The slot count is fixed and the current slot is one of them.
    pub open spec fn wf(self) -> bool {
        self.slots.len() == MAX_SLOTS && 0 <= self.current < MAX_SLOTS
    }
}

impl View for TouchTracker {
    type V = TouchModel;

    closed spec fn view(&self) -> TouchModel {
        TouchModel { slots: self.slots@, current: self.current_slot as int }
    }
}

impl TouchTracker {
    /// The tracker is consistent.
    pub open spec fn wf(&self) -> bool {
        self@.wf()
    }

    /// All slots empty, slot 0 current.
    pub fn new() -> (r: TouchTracker)
        ensures
            r.wf(),
            r@.current == 0,
            r@.slots == Seq::new(MAX_SLOTS as nat, |i: int| empty_slot()),
    {
        let mut slots: Vec<TouchSlot> = Vec::new();
        let mut i: usize = 0;
        while i < MAX_SLOTS
            invariant
                i <= MAX_SLOTS,
                slots@ == Seq::new(i as nat, |k: int| empty_slot()),
            decreases MAX_SLOTS - i,
        {
            slots.push(TouchSlot { tracking_id: -1, x: 0, y: 0, active: false, changed: false });
            i = i + 1;
            proof {
                assert(slots@ =~= Seq::new(i as nat, |k: int| empty_slot()));
            }
        }
        TouchTracker { slots, current_slot: 0 }
    }

    /// Takes in one raw input event (type, code, value) and gives the
    /// changed slots when the event completes a report.
    pub fn on_event(&mut self, type_: u16, code: u16, value: i32) -> (r: Vec<RawTouch>)
        requires
            old(self).wf(),
        ensures
            final(self).wf(),
            (final(self)@, r@) == spec_touch_event(old(self)@, type_, code, value),
    {
        let mut out: Vec<RawTouch> = Vec::new();
        let ghost m0 = self@;
        if type_ == EV_ABS {
            let cur = self.current_slot;
            if code == ABS_MT_SLOT {
                self.current_slot = if value >= 0 && value < 10 {
                    value as usize
                } else {
                    0
                };
            } else if code == ABS_MT_TRACKING_ID {
                let mut s = self.slots[cur];
                if value == -1 {
                    s.active = false;
                    s.changed = true;
                } else {
                    s.tracking_id = value;
                    s.active = true;
                    s.changed = true;
                }
                self.slots.set(cur, s);
            } else if code == ABS_MT_POSITION_X {
                let mut s = self.slots[cur];
                s.x = value;
                s.changed = true;
                self.slots.set(cur, s);
            } else if code == ABS_MT_POSITION_Y {
                let mut s = self.slots[cur];
                s.y = value;
                s.changed = true;
                self.slots.set(cur, s);
            }
        } else if type_ == EV_SYN && code == SYN_REPORT {
            let ghost before = self.slots@;
            let n = self.slots.len();
            let mut i: usize = 0;
            while i < n
                invariant
                    n == self.slots.len(),
                    n == before.len(),
                    n == MAX_SLOTS,
                    self.current_slot < MAX_SLOTS,
                    self.current_slot == m0.current,
                    before == m0.slots,
                    i <= n,
                    forall|k: int| 0 <= k < i ==> self.slots@[k] == settled(before)[k],
                    forall|k: int| i <= k < n ==> self.slots@[k] == before[k],
                    out@ == reports(before.take(i as int)),
                decreases n - i,
            {
                proof {
                    crate::game::lemma_take_step(before, i as int);
                }
                let mut s = self.slots[i];
                if s.changed {
                    s.changed = false;
                    out.push(RawTouch { x: s.x, y: s.y, tracking_id: s.tracking_id, active: s.active });
                }
                self.slots.set(i, s);
                i = i + 1;
            }
            proof {
                assert(self.slots@ =~= settled(before));
                assert(before.take(n as int) =~= before);
            }
        }
        proof {
            let expected = spec_touch_event(m0, type_, code, value);
            assert(self@.slots =~= expected.0.slots);
            assert(out@ =~= expected.1);
        }
        out
    }
}

/// A report clears every change, so a second report right after it
/// reports nothing.
pub proof fn law_report_settles(m: TouchModel)
    requires
        m.wf(),
    ensures
        spec_touch_event(spec_touch_event(m, EV_SYN, SYN_REPORT, 0).0, EV_SYN, SYN_REPORT, 0).1
            == Seq::<RawTouch>::empty(),
{
    lemma_no_reports(settled(m.slots));
}

/// Slots with no change give no report.
pub proof fn lemma_no_reports(slots: Seq<TouchSlot>)
    requires
        forall|i: int| 0 <= i < slots.len() ==> !(#[trigger] slots[i]).changed,
    ensures
        reports(slots) == Seq::<RawTouch>::empty(),
    decreases slots.len(),
{
    if slots.len() > 0 {
        assert forall|i: int| 0 <= i < slots.drop_last().len() implies !(
        #[trigger] slots.drop_last()[i]).changed by {
            assert(slots.drop_last()[i] == slots[i]);
        }
        lemma_no_reports(slots.drop_last());
    }
}

} // verus!
