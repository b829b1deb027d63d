//! Putting the controls of a camera into a known state.
//!
//! Only controls that the camera announces are touched. A control that refuses is left alone.

use crate::drivers::usb::setup::{hi8, le_bytes16, lo8, ControlRequest, RequestView};
use crate::drivers::usb::uvc::descriptor::UvcControlEntities;
use crate::drivers::usb::uvc::session::UvcCamera;
use crate::drivers::usb::uvc::setup::{uvc_packet, uvc_setup, UvcRequest};
use crate::error::UsbResult;
use vstd::prelude::*;

verus! {

pub const PU_BACKLIGHT_COMPENSATION: u8 = 0x01;

pub const PU_BRIGHTNESS_CONTROL: u8 = 0x02;

pub const PU_CONTRAST_CONTROL: u8 = 0x03;

pub const PU_GAIN_CONTROL: u8 = 0x04;

pub const PU_POWER_LINE_FREQUENCY_CONTROL: u8 = 0x05;

pub const PU_HUE_CONTROL: u8 = 0x06;

pub const PU_SATURATION_CONTROL: u8 = 0x07;

pub const PU_SHARPNESS_CONTROL: u8 = 0x08;

pub const PU_GAMMA_CONTROL: u8 = 0x09;

pub const PU_WHITE_BALANCE_TEMPERATURE_CONTROL: u8 = 0x0A;

pub const PU_WHITE_BALANCE_TEMPERATURE_AUTO_CONTROL: u8 = 0x0B;

pub const PU_HUE_AUTO_CONTROL: u8 = 0x10;

pub const CT_AE_MODE_CONTROL: u8 = 0x02;

pub const CT_AE_PRIORITY_CONTROL: u8 = 0x03;

pub const CT_FOCUS_AUTO_CONTROL: u8 = 0x08;

/// White balance in Kelvin where the camera names no default.
pub const DEFAULT_WHITE_BALANCE: u16 = 4500;

/// Something to do with a control of an entity.
#[derive(Clone, Copy, Debug, PartialEq, Eq, Structural)]
pub enum CtrlTask {
    /// Read the value and the default; set the default where they differ.
    ApplyDefault { entity: u8, selector: u8 },
    /// Set a byte.
    SetU8 { entity: u8, selector: u8, value: u8 },
    /// Read the default and set it, where it can be read.
    CopyDefault { entity: u8, selector: u8 },
    /// Set the default, or another value where it cannot be read.
    DefaultOr { entity: u8, selector: u8, fallback: u16 },
    /// Read the value.
    ReadCur { entity: u8, selector: u8 },
    /// Set the first of three bytes that is accepted.
    FirstOf { entity: u8, selector: u8, first: u8, second: u8, third: u8 },
}

/// Whether control `k` is announced.
pub open spec fn announced(bm: u32, k: u32) -> bool {
    bm & (1u32 << k) != 0
}

/// The task, where control `k` is announced.
pub open spec fn when(bm: u32, k: u32, t: CtrlTask) -> Seq<CtrlTask> {
    if announced(bm, k) {
        seq![t]
    } else {
        Seq::empty()
    }
}

/// White balance: automatic where the camera can, after its manual value was put back; else the
/// default.
pub open spec fn white_balance_plan(pu: u8, bm: u32) -> Seq<CtrlTask> {
    let auto = PU_WHITE_BALANCE_TEMPERATURE_AUTO_CONTROL;
    let manual = PU_WHITE_BALANCE_TEMPERATURE_CONTROL;
    if announced(bm, 12) {
        seq![CtrlTask::SetU8 { entity: pu, selector: auto, value: 0 }] + when(
            bm,
            6,
            CtrlTask::CopyDefault { entity: pu, selector: manual },
        ) + seq![
            CtrlTask::SetU8 { entity: pu, selector: auto, value: 1 },
            CtrlTask::ReadCur { entity: pu, selector: manual },
        ]
    } else {
        when(
            bm,
            6,
            CtrlTask::DefaultOr {
                entity: pu,
                selector: manual,
                fallback: DEFAULT_WHITE_BALANCE,
            },
        )
    }
}

/// The picture adjustments, each put back to its default.
pub open spec fn defaults_plan(pu: u8, bm: u32) -> Seq<CtrlTask> {
    when(bm, 0, CtrlTask::ApplyDefault { entity: pu, selector: PU_BRIGHTNESS_CONTROL }) + when(
        bm,
        1,
        CtrlTask::ApplyDefault { entity: pu, selector: PU_CONTRAST_CONTROL },
    ) + when(bm, 2, CtrlTask::ApplyDefault { entity: pu, selector: PU_HUE_CONTROL }) + when(
        bm,
        3,
        CtrlTask::ApplyDefault { entity: pu, selector: PU_SATURATION_CONTROL },
    ) + when(bm, 4, CtrlTask::ApplyDefault { entity: pu, selector: PU_SHARPNESS_CONTROL })
        + when(bm, 5, CtrlTask::ApplyDefault { entity: pu, selector: PU_GAMMA_CONTROL }) + when(
        bm,
        8,
        CtrlTask::ApplyDefault { entity: pu, selector: PU_BACKLIGHT_COMPENSATION },
    ) + when(bm, 9, CtrlTask::ApplyDefault { entity: pu, selector: PU_GAIN_CONTROL })
}

/// What is done with a processing unit: defaults, white balance, automatic hue, and mains
/// flicker at 50 Hz.
pub open spec fn pu_plan(pu: u8, bm: u32) -> Seq<CtrlTask> {
    defaults_plan(pu, bm) + white_balance_plan(pu, bm) + when(
        bm,
        11,
        CtrlTask::SetU8 { entity: pu, selector: PU_HUE_AUTO_CONTROL, value: 1 },
    ) + when(
        bm,
        10,
        CtrlTask::SetU8 { entity: pu, selector: PU_POWER_LINE_FREQUENCY_CONTROL, value: 1 },
    )
}

/// What is done with a camera terminal: automatic exposure in the first mode that is accepted,
/// which may slow the frame rate down, and automatic focus.
pub open spec fn ct_plan(ct: u8, bm: u32) -> Seq<CtrlTask> {
    when(
        bm,
        1,
        CtrlTask::FirstOf { entity: ct, selector: CT_AE_MODE_CONTROL, first: 0x02, second: 0x08, third: 0x04 },
    ) + (if announced(bm, 1) {
        when(bm, 2, CtrlTask::SetU8 { entity: ct, selector: CT_AE_PRIORITY_CONTROL, value: 1 })
    } else {
        Seq::empty()
    }) + when(bm, 17, CtrlTask::SetU8 { entity: ct, selector: CT_FOCUS_AUTO_CONTROL, value: 1 })
}

/// What is done with the entities of a camera.
pub open spec fn control_plan(e: UvcControlEntities) -> Seq<CtrlTask> {
    (match e.processing_unit_id {
        Some(pu) => pu_plan(pu, e.pu_controls),
        None => Seq::empty(),
    }) + (match e.camera_terminal_id {
        Some(ct) => ct_plan(ct, e.ct_controls),
        None => Seq::empty(),
    })
}

/// The bit that announces a control of a processing unit.
pub open spec fn pu_bit(selector: u8) -> u32 {
    if selector == PU_BRIGHTNESS_CONTROL {
        0
    } else if selector == PU_CONTRAST_CONTROL {
        1
    } else if selector == PU_HUE_CONTROL {
        2
    } else if selector == PU_SATURATION_CONTROL {
        3
    } else if selector == PU_SHARPNESS_CONTROL {
        4
    } else if selector == PU_GAMMA_CONTROL {
        5
    } else if selector == PU_WHITE_BALANCE_TEMPERATURE_CONTROL {
        6
    } else if selector == PU_BACKLIGHT_COMPENSATION {
        8
    } else if selector == PU_GAIN_CONTROL {
        9
    } else if selector == PU_POWER_LINE_FREQUENCY_CONTROL {
        10
    } else if selector == PU_HUE_AUTO_CONTROL {
        11
    } else {
        12
    }
}

/// The bit that announces a control of a camera terminal.
pub open spec fn ct_bit(selector: u8) -> u32 {
    if selector == CT_AE_MODE_CONTROL {
        1
    } else if selector == CT_AE_PRIORITY_CONTROL {
        2
    } else {
        17
    }
}

/// Entity and control of a task that may change something.
pub open spec fn changes(t: CtrlTask) -> Option<(u8, u8)> {
    match t {
        CtrlTask::ApplyDefault { entity, selector } => Some((entity, selector)),
        CtrlTask::SetU8 { entity, selector, value } => Some((entity, selector)),
        CtrlTask::CopyDefault { entity, selector } => Some((entity, selector)),
        CtrlTask::DefaultOr { entity, selector, fallback } => Some((entity, selector)),
        CtrlTask::ReadCur { entity, selector } => None,
        CtrlTask::FirstOf { entity, selector, first, second, third } => Some((entity, selector)),
    }
}

/// Whether a task leaves alone what a processing unit does not announce.
pub open spec fn pu_allows(t: CtrlTask, pu: u8, bm: u32) -> bool {
    changes(t) matches Some((entity, selector)) ==> entity == pu && announced(bm, pu_bit(selector))
}

/// Whether all tasks do.
pub open spec fn pu_allows_all(s: Seq<CtrlTask>, pu: u8, bm: u32) -> bool {
    forall|k: int| 0 <= k < s.len() ==> pu_allows(#[trigger] s[k], pu, bm)
}

/// Tasks are allowed together where they are allowed apart.
proof fn lemma_join(a: Seq<CtrlTask>, b: Seq<CtrlTask>, pu: u8, bm: u32)
    requires
        pu_allows_all(a, pu, bm),
        pu_allows_all(b, pu, bm),
    ensures
        pu_allows_all(a + b, pu, bm),
{
    assert forall|k: int| 0 <= k < (a + b).len() implies pu_allows(
        #[trigger] (a + b)[k],
        pu,
        bm,
    ) by {
        if k < a.len() {
            assert((a + b)[k] == a[k]);
        } else {
            assert((a + b)[k] == b[k - a.len()]);
        }
    }
}

/// Defaults are restored only of what is announced.
proof fn lemma_defaults_allowed(pu: u8, bm: u32)
    ensures
        pu_allows_all(defaults_plan(pu, bm), pu, bm),
{
    let t0 = when(bm, 0, CtrlTask::ApplyDefault { entity: pu, selector: PU_BRIGHTNESS_CONTROL });
    let t1 = when(bm, 1, CtrlTask::ApplyDefault { entity: pu, selector: PU_CONTRAST_CONTROL });
    let t2 = when(bm, 2, CtrlTask::ApplyDefault { entity: pu, selector: PU_HUE_CONTROL });
    let t3 = when(bm, 3, CtrlTask::ApplyDefault { entity: pu, selector: PU_SATURATION_CONTROL });
    let t4 = when(bm, 4, CtrlTask::ApplyDefault { entity: pu, selector: PU_SHARPNESS_CONTROL });
    let t5 = when(bm, 5, CtrlTask::ApplyDefault { entity: pu, selector: PU_GAMMA_CONTROL });
    let t8 = when(
        bm,
        8,
        CtrlTask::ApplyDefault { entity: pu, selector: PU_BACKLIGHT_COMPENSATION },
    );
    let t9 = when(bm, 9, CtrlTask::ApplyDefault { entity: pu, selector: PU_GAIN_CONTROL });
    lemma_join(t0, t1, pu, bm);
    lemma_join(t0 + t1, t2, pu, bm);
    lemma_join(t0 + t1 + t2, t3, pu, bm);
    lemma_join(t0 + t1 + t2 + t3, t4, pu, bm);
    lemma_join(t0 + t1 + t2 + t3 + t4, t5, pu, bm);
    lemma_join(t0 + t1 + t2 + t3 + t4 + t5, t8, pu, bm);
    lemma_join(t0 + t1 + t2 + t3 + t4 + t5 + t8, t9, pu, bm);
}

/// No control of a processing unit is changed unless the unit announces it.
pub proof fn law_only_announced_pu_controls_change(pu: u8, bm: u32, k: int)
    requires
        0 <= k < pu_plan(pu, bm).len(),
    ensures
        changes(pu_plan(pu, bm)[k]) matches Some((entity, selector)) ==> entity == pu && announced(
            bm,
            pu_bit(selector),
        ),
{
    let hue = when(
        bm,
        11,
        CtrlTask::SetU8 { entity: pu, selector: PU_HUE_AUTO_CONTROL, value: 1 },
    );
    let mains = when(
        bm,
        10,
        CtrlTask::SetU8 { entity: pu, selector: PU_POWER_LINE_FREQUENCY_CONTROL, value: 1 },
    );
    let d = defaults_plan(pu, bm);
    let w = white_balance_plan(pu, bm);
    lemma_defaults_allowed(pu, bm);
    assert(pu_allows_all(w, pu, bm));
    lemma_join(d, w, pu, bm);
    lemma_join(d + w, hue, pu, bm);
    lemma_join(d + w + hue, mains, pu, bm);
    assert(pu_allows(pu_plan(pu, bm)[k], pu, bm));
}

/// No control of a camera terminal is changed unless the terminal announces it.
pub proof fn law_only_announced_ct_controls_change(ct: u8, bm: u32, k: int)
    requires
        0 <= k < ct_plan(ct, bm).len(),
    ensures
        changes(ct_plan(ct, bm)[k]) matches Some((entity, selector)) ==> entity == ct && announced(
            bm,
            ct_bit(selector),
        ),
{
}

/// Adds a task, where control `k` is announced.
fn push_when(tasks: &mut Vec<CtrlTask>, bm: u32, k: u32, t: CtrlTask)
    requires
        k < 32,
    ensures
        final(tasks)@ == old(tasks)@ + when(bm, k, t),
{
    if bm & (1u32 << k) != 0 {
        tasks.push(t);
    }
    assert(tasks@ =~= old(tasks)@ + when(bm, k, t));
}

/// Adds a task.
fn push_task(tasks: &mut Vec<CtrlTask>, t: CtrlTask)
    ensures
        final(tasks)@ == old(tasks)@ + seq![t],
{
    tasks.push(t);
    assert(tasks@ =~= old(tasks)@ + seq![t]);
}

/// Puts a picture adjustment back to its default, where it is announced.
fn pu_apply_one(tasks: &mut Vec<CtrlTask>, pu: u8, bm: u32, bit: u32, selector: u8)
    requires
        bit < 32,
    ensures
        final(tasks)@ == old(tasks)@ + when(
            bm,
            bit,
            CtrlTask::ApplyDefault { entity: pu, selector },
        ),
{
    push_when(tasks, bm, bit, CtrlTask::ApplyDefault { entity: pu, selector });
}

/// Plans what is done with a processing unit.
fn plan_pu(pu: u8, bm: u32) -> (tasks: Vec<CtrlTask>)
    ensures
        tasks@ == pu_plan(pu, bm),
{
    let mut tasks: Vec<CtrlTask> = Vec::new();
    pu_apply_one(&mut tasks, pu, bm, 0, PU_BRIGHTNESS_CONTROL);
    pu_apply_one(&mut tasks, pu, bm, 1, PU_CONTRAST_CONTROL);
    pu_apply_one(&mut tasks, pu, bm, 2, PU_HUE_CONTROL);
    pu_apply_one(&mut tasks, pu, bm, 3, PU_SATURATION_CONTROL);
    pu_apply_one(&mut tasks, pu, bm, 4, PU_SHARPNESS_CONTROL);
    pu_apply_one(&mut tasks, pu, bm, 5, PU_GAMMA_CONTROL);
    pu_apply_one(&mut tasks, pu, bm, 8, PU_BACKLIGHT_COMPENSATION);
    pu_apply_one(&mut tasks, pu, bm, 9, PU_GAIN_CONTROL);
    assert(tasks@ =~= defaults_plan(pu, bm));
    let auto: u8 = PU_WHITE_BALANCE_TEMPERATURE_AUTO_CONTROL;
    let manual: u8 = PU_WHITE_BALANCE_TEMPERATURE_CONTROL;
    if bm & (1u32 << 12u32) != 0 {
        push_task(&mut tasks, CtrlTask::SetU8 { entity: pu, selector: auto, value: 0 });
        push_when(&mut tasks, bm, 6, CtrlTask::CopyDefault { entity: pu, selector: manual });
        push_task(&mut tasks, CtrlTask::SetU8 { entity: pu, selector: auto, value: 1 });
        push_task(&mut tasks, CtrlTask::ReadCur { entity: pu, selector: manual });
    } else {
        push_when(
            &mut tasks,
            bm,
            6,
            CtrlTask::DefaultOr {
                entity: pu,
                selector: manual,
                fallback: DEFAULT_WHITE_BALANCE,
            },
        );
    }
    assert(tasks@ =~= defaults_plan(pu, bm) + white_balance_plan(pu, bm));
    push_when(
        &mut tasks,
        bm,
        11,
        CtrlTask::SetU8 { entity: pu, selector: PU_HUE_AUTO_CONTROL, value: 1 },
    );
    push_when(
        &mut tasks,
        bm,
        10,
        CtrlTask::SetU8 { entity: pu, selector: PU_POWER_LINE_FREQUENCY_CONTROL, value: 1 },
    );
    tasks
}

/// Plans what is done with a camera terminal.
fn plan_ct(ct: u8, bm: u32) -> (tasks: Vec<CtrlTask>)
    ensures
        tasks@ == ct_plan(ct, bm),
{
    let mut tasks: Vec<CtrlTask> = Vec::new();
    if bm & (1u32 << 1u32) != 0 {
        push_task(
            &mut tasks,
            CtrlTask::FirstOf {
                entity: ct,
                selector: CT_AE_MODE_CONTROL,
                first: 0x02, second: 0x08, third: 0x04,
            },
        );
        push_when(
            &mut tasks,
            bm,
            2,
            CtrlTask::SetU8 { entity: ct, selector: CT_AE_PRIORITY_CONTROL, value: 1 },
        );
    }
    push_when(
        &mut tasks,
        bm,
        17,
        CtrlTask::SetU8 { entity: ct, selector: CT_FOCUS_AUTO_CONTROL, value: 1 },
    );
    assert(tasks@ =~= ct_plan(ct, bm));
    tasks
}

impl UvcCamera {
    /// Plans the initialisation of the camera's controls.
    pub fn init_controls(&self) -> (tasks: Vec<CtrlTask>)
        ensures
            tasks@ == control_plan(self.entities),
    {
        let mut tasks: Vec<CtrlTask> = match self.entities.processing_unit_id {
            Some(pu) => plan_pu(pu, self.entities.pu_controls),
            None => Vec::new(),
        };
        let mut tail: Vec<CtrlTask> = match self.entities.camera_terminal_id {
            Some(ct) => plan_ct(ct, self.entities.ct_controls),
            None => Vec::new(),
        };
        tasks.append(&mut tail);
        tasks
    }
}

// ---------------------------------------------------------------------------
// Carrying a task out
// ---------------------------------------------------------------------------
/// An access to a control.
#[derive(Clone, Copy, Debug, PartialEq, Eq, Structural)]
pub enum CtrlOp {
    GetCur { entity: u8, selector: u8 },
    GetDef { entity: u8, selector: u8 },
    SetU8 { entity: u8, selector: u8, value: u8 },
    SetU16 { entity: u8, selector: u8, word: u16 },
}

/// How an access went: the value that was read, if any, or whether the value was set.
#[derive(Clone, Copy, Debug, PartialEq, Eq, Structural)]
pub enum CtrlReply {
    Got(Option<u16>),
    Accepted(bool),
}

/// How far a task is.
#[derive(Clone, Copy, Debug, PartialEq, Eq, Structural)]
pub enum TaskStage {
    /// The first access was made.
    First,
    /// The value was read, now the default is.
    HaveCur { cur: Option<u16> },
    /// The last access was made.
    Last,
    /// The second value was tried.
    Second,
    /// The third value was tried.
    Third,
}

/// The first access of a task.
pub open spec fn first_access(t: CtrlTask) -> CtrlOp {
    match t {
        CtrlTask::ApplyDefault { entity, selector } => CtrlOp::GetCur { entity, selector },
        CtrlTask::SetU8 { entity, selector, value } => CtrlOp::SetU8 { entity, selector, value },
        CtrlTask::CopyDefault { entity, selector } => CtrlOp::GetDef { entity, selector },
        CtrlTask::DefaultOr { entity, selector, fallback } => CtrlOp::GetDef { entity, selector },
        CtrlTask::ReadCur { entity, selector } => CtrlOp::GetCur { entity, selector },
        CtrlTask::FirstOf { entity, selector, first, second, third } => CtrlOp::SetU8 {
            entity,
            selector,
            value: first,
        },
    }
}

/// The next access of a task, `None` where it is done.
pub open spec fn next_access(t: CtrlTask, stage: TaskStage, reply: CtrlReply) -> Option<
    (TaskStage, CtrlOp),
> {
    match (t, stage, reply) {
        (CtrlTask::ApplyDefault { entity, selector }, TaskStage::First, CtrlReply::Got(cur)) => Some(
            (TaskStage::HaveCur { cur }, CtrlOp::GetDef { entity, selector }),
        ),
        (
            CtrlTask::ApplyDefault { entity, selector },
            TaskStage::HaveCur { cur: Some(c) },
            CtrlReply::Got(Some(d)),
        ) => if c != d {
            Some((TaskStage::Last, CtrlOp::SetU16 { entity, selector, word: d }))
        } else {
            None
        },
        (
            CtrlTask::CopyDefault { entity, selector },
            TaskStage::First,
            CtrlReply::Got(Some(d)),
        ) => Some((TaskStage::Last, CtrlOp::SetU16 { entity, selector, word: d })),
        (
            CtrlTask::DefaultOr { entity, selector, fallback },
            TaskStage::First,
            CtrlReply::Got(d),
        ) => Some(
            (
                TaskStage::Last,
                CtrlOp::SetU16 {
                    entity,
                    selector,
                    word: match d {
                        Some(v) => v,
                        None => fallback,
                    },
                },
            ),
        ),
        (
            CtrlTask::FirstOf { entity, selector, first, second, third },
            TaskStage::First,
            CtrlReply::Accepted(false),
        ) => Some((TaskStage::Second, CtrlOp::SetU8 { entity, selector, value: second })),
        (
            CtrlTask::FirstOf { entity, selector, first, second, third },
            TaskStage::Second,
            CtrlReply::Accepted(false),
        ) => Some((TaskStage::Third, CtrlOp::SetU8 { entity, selector, value: third })),
        _ => None,
    }
}

impl CtrlTask {
    /// The first access of the task.
    pub fn first(&self) -> (r: CtrlOp)
        ensures
            r == first_access(*self),
    {
        match *self {
            CtrlTask::ApplyDefault { entity, selector } => CtrlOp::GetCur { entity, selector },
            CtrlTask::SetU8 { entity, selector, value } => CtrlOp::SetU8 {
                entity,
                selector,
                value,
            },
            CtrlTask::CopyDefault { entity, selector } => CtrlOp::GetDef { entity, selector },
            CtrlTask::DefaultOr { entity, selector, fallback } => CtrlOp::GetDef {
                entity,
                selector,
            },
            CtrlTask::ReadCur { entity, selector } => CtrlOp::GetCur { entity, selector },
            CtrlTask::FirstOf { entity, selector, first, second, third } => CtrlOp::SetU8 {
                entity,
                selector,
                value: first,
            },
        }
    }

    /// The next access of the task, by how the one before went.
    pub fn next(&self, stage: TaskStage, reply: CtrlReply) -> (r: Option<(TaskStage, CtrlOp)>)
        ensures
            r == next_access(*self, stage, reply),
    {
        match (*self, stage, reply) {
            (
                CtrlTask::ApplyDefault { entity, selector },
                TaskStage::First,
                CtrlReply::Got(cur),
            ) => Some((TaskStage::HaveCur { cur }, CtrlOp::GetDef { entity, selector })),
            (
                CtrlTask::ApplyDefault { entity, selector },
                TaskStage::HaveCur { cur: Some(c) },
                CtrlReply::Got(Some(d)),
            ) => {
                if c != d {
                    Some((TaskStage::Last, CtrlOp::SetU16 { entity, selector, word: d }))
                } else {
                    None
                }
            },
            (
                CtrlTask::CopyDefault { entity, selector },
                TaskStage::First,
                CtrlReply::Got(Some(d)),
            ) => Some((TaskStage::Last, CtrlOp::SetU16 { entity, selector, word: d })),
            (
                CtrlTask::DefaultOr { entity, selector, fallback },
                TaskStage::First,
                CtrlReply::Got(d),
            ) => {
                let word: u16 = match d {
                    Some(v) => v,
                    None => fallback,
                };
                Some((TaskStage::Last, CtrlOp::SetU16 { entity, selector, word }))
            },
            (
                CtrlTask::FirstOf { entity, selector, first, second, third },
                TaskStage::First,
                CtrlReply::Accepted(false),
            ) => Some((TaskStage::Second, CtrlOp::SetU8 { entity, selector, value: second })),
            (
                CtrlTask::FirstOf { entity, selector, first, second, third },
                TaskStage::Second,
                CtrlReply::Accepted(false),
            ) => Some((TaskStage::Third, CtrlOp::SetU8 { entity, selector, value: third })),
            _ => None,
        }
    }
}

/// The transfer that an access takes.
pub open spec fn access_request(op: CtrlOp, interface: u8) -> RequestView {
    match op {
        CtrlOp::GetCur { entity, selector } => RequestView::In {
            setup: uvc_packet(
                UvcRequest::GetCurControl { interface, entity_id: entity, selector, w_length: 2 },
            ),
            len: 2,
        },
        CtrlOp::GetDef { entity, selector } => RequestView::In {
            setup: uvc_packet(
                UvcRequest::GetDefControl { interface, entity_id: entity, selector, w_length: 2 },
            ),
            len: 2,
        },
        CtrlOp::SetU8 { entity, selector, value } => RequestView::Out {
            setup: uvc_packet(
                UvcRequest::SetCurControl { interface, entity_id: entity, selector, w_length: 1 },
            ),
            data: seq![value],
        },
        CtrlOp::SetU16 { entity, selector, word } => RequestView::Out {
            setup: uvc_packet(
                UvcRequest::SetCurControl { interface, entity_id: entity, selector, w_length: 2 },
            ),
            data: seq![lo8(word), hi8(word)],
        },
    }
}

impl CtrlOp {
    /// The transfer that the access takes on a control interface.
    pub fn request(&self, interface: u8) -> (r: ControlRequest)
        ensures
            r@ == access_request(*self, interface),
    {
        match *self {
            CtrlOp::GetCur { entity, selector } => ControlRequest::data_in(
                uvc_setup(
                    UvcRequest::GetCurControl {
                        interface,
                        entity_id: entity,
                        selector,
                        w_length: 2,
                    },
                ),
                2,
            ),
            CtrlOp::GetDef { entity, selector } => ControlRequest::data_in(
                uvc_setup(
                    UvcRequest::GetDefControl {
                        interface,
                        entity_id: entity,
                        selector,
                        w_length: 2,
                    },
                ),
                2,
            ),
            CtrlOp::SetU8 { entity, selector, value } => {
                let mut data: Vec<u8> = Vec::new();
                data.push(value);
                assert(data@ =~= seq![value]);
                ControlRequest::data_out(
                    uvc_setup(
                        UvcRequest::SetCurControl {
                            interface,
                            entity_id: entity,
                            selector,
                            w_length: 1,
                        },
                    ),
                    data,
                )
            },
            CtrlOp::SetU16 { entity, selector, word } => {
                let (lo, hi) = le_bytes16(word);
                let mut data: Vec<u8> = Vec::new();
                data.push(lo);
                data.push(hi);
                assert(data@ =~= seq![lo8(word), hi8(word)]);
                ControlRequest::data_out(
                    uvc_setup(
                        UvcRequest::SetCurControl {
                            interface,
                            entity_id: entity,
                            selector,
                            w_length: 2,
                        },
                    ),
                    data,
                )
            },
        }
    }

    /// The value in the two bytes that were read.
    pub fn value(buf: &[u8; 2]) -> (r: u16)
        ensures
            r == buf@[0] + 256 * buf@[1],
    {
        buf[0] as u16 + 256 * buf[1] as u16
    }
}

/// What came of an access: a value where one was read, else whether the value was taken.
pub open spec fn reply_of(op: CtrlOp, result: UsbResult<Seq<u8>>) -> CtrlReply {
    match op {
        CtrlOp::GetCur { entity, selector } => CtrlReply::Got(value_of(result)),
        CtrlOp::GetDef { entity, selector } => CtrlReply::Got(value_of(result)),
        _ => CtrlReply::Accepted(result is Ok),
    }
}

/// The value that a read brought, if it did.
pub open spec fn value_of(result: UsbResult<Seq<u8>>) -> Option<u16> {
    match result {
        Ok(b) => Some((b[0] + 256 * b[1]) as u16),
        Err(e) => None,
    }
}

/// What a transfer brought, as a sequence.
pub open spec fn bytes_brought(result: UsbResult<Vec<u8>>) -> UsbResult<Seq<u8>> {
    match result {
        Ok(b) => Ok(b@),
        Err(e) => Err(e),
    }
}

impl CtrlOp {
    /// Whether the access reads a value.
    pub open spec fn reads(self) -> bool {
        self is GetCur || self is GetDef
    }

    /// What came of the access, by how its transfer went.
    pub fn reply(&self, result: &UsbResult<Vec<u8>>) -> (r: CtrlReply)
        requires
            self.reads() ==> (*result matches Ok(b) ==> b@.len() == 2),
        ensures
            r == reply_of(*self, bytes_brought(*result)),
    {
        match *self {
            CtrlOp::GetCur { entity, selector } => CtrlReply::Got(CtrlOp::read_value(result)),
            CtrlOp::GetDef { entity, selector } => CtrlReply::Got(CtrlOp::read_value(result)),
            _ => CtrlReply::Accepted(result.is_ok()),
        }
    }

    /// The value that a read brought.
    fn read_value(result: &UsbResult<Vec<u8>>) -> (r: Option<u16>)
        requires
            *result matches Ok(b) ==> b@.len() == 2,
        ensures
            r == value_of(bytes_brought(*result)),
    {
        match result {
            Ok(b) => Some(CtrlOp::value(&[b[0], b[1]])),
            Err(_) => None,
        }
    }
}

/// Tasks that are being carried out.
pub struct ControlsRun {
    pub tasks: Vec<CtrlTask>,
    /// The task that is carried out now.
    pub pos: usize,
    pub stage: TaskStage,
}

/// Contents of a [`ControlsRun`].
#[verifier::ext_equal]
pub struct ControlsView {
    pub tasks: Seq<CtrlTask>,
    pub pos: int,
    pub stage: TaskStage,
}

impl View for ControlsRun {
    type V = ControlsView;

    open spec fn view(&self) -> ControlsView {
        ControlsView { tasks: self.tasks@, pos: self.pos as int, stage: self.stage }
    }
}

/// The first access of the task that comes now, `None` where all are done.
pub open spec fn task_begins(v: ControlsView) -> Option<CtrlOp> {
    if v.pos < v.tasks.len() {
        Some(first_access(v.tasks[v.pos]))
    } else {
        None
    }
}

/// Tasks before the first of them.
pub open spec fn controls_start(tasks: Seq<CtrlTask>) -> ControlsView {
    ControlsView { tasks, pos: 0, stage: TaskStage::First }
}

/// What follows a reply: the next access of the task, or the first one of the next task. `None`
/// where all are done.
pub open spec fn controls_next(v: ControlsView, reply: CtrlReply) -> (ControlsView, Option<CtrlOp>) {
    match next_access(v.tasks[v.pos], v.stage, reply) {
        Some((stage, op)) => (ControlsView { stage, ..v }, Some(op)),
        None => {
            let w = ControlsView { pos: v.pos + 1, stage: TaskStage::First, ..v };
            (w, task_begins(w))
        },
    }
}

impl ControlsRun {
    /// Begins with the first task.
    pub fn new(tasks: Vec<CtrlTask>) -> (r: (ControlsRun, Option<CtrlOp>))
        ensures
            r.0@ == controls_start(tasks@),
            r.1 == task_begins(controls_start(tasks@)),
    {
        let run = ControlsRun { tasks, pos: 0, stage: TaskStage::First };
        let op: Option<CtrlOp> = run.begin();
        (run, op)
    }

    /// The first access of the task that comes now.
    fn begin(&self) -> (r: Option<CtrlOp>)
        ensures
            r == task_begins(self@),
    {
        if self.pos < self.tasks.len() {
            Some(self.tasks[self.pos].first())
        } else {
            None
        }
    }

    /// Goes on with how the last access went.
    pub fn step(&mut self, reply: CtrlReply) -> (r: Option<CtrlOp>)
        requires
            old(self)@.pos < old(self)@.tasks.len(),
        ensures
            (final(self)@, r) == controls_next(old(self)@, reply),
    {
        let count: usize = self.tasks.len();
        assert(self.pos < count);
        match self.tasks[self.pos].next(self.stage, reply) {
            Some((stage, op)) => {
                self.stage = stage;
                Some(op)
            },
            None => {
                self.pos = self.pos + 1;
                self.stage = TaskStage::First;
                self.begin()
            },
        }
    }
}

/// Accesses that a task has left at most, including the one that was made.
pub open spec fn accesses_left(stage: TaskStage) -> int {
    match stage {
        TaskStage::First => 3,
        TaskStage::HaveCur { cur } => 2,
        TaskStage::Second => 2,
        TaskStage::Last => 1,
        TaskStage::Third => 1,
    }
}

/// No reply ends the tasks early, a refusal no more than any other: they end behind the last
/// task, and come nearer to it with each access.
pub proof fn law_refusals_end_nothing(v: ControlsView, reply: CtrlReply)
    requires
        0 <= v.pos < v.tasks.len(),
    ensures
        ({
            let (w, op) = controls_next(v, reply);
            &&& op is None <==> w.pos == v.tasks.len()
            &&& w.pos == v.pos || w.pos == v.pos + 1
            &&& w.tasks == v.tasks
            &&& w.pos == v.pos ==> accesses_left(w.stage) < accesses_left(v.stage)
        }),
{
}

// ---------------------------------------------------------------------------
// What becomes of the controls
// ---------------------------------------------------------------------------
/// What stands in a part stands in the whole.
proof fn lemma_kept(a: Seq<CtrlTask>, b: Seq<CtrlTask>, t: CtrlTask)
    ensures
        a.contains(t) || b.contains(t) ==> (a + b).contains(t),
{
    if a.contains(t) {
        let k = choose|k: int| 0 <= k < a.len() && a[k] == t;
        assert((a + b)[k] == t);
    } else if b.contains(t) {
        let k = choose|k: int| 0 <= k < b.len() && b[k] == t;
        assert((a + b)[a.len() + k] == t);
    }
}

/// A bit of a bitmap.
proof fn lemma_bit_of(bm: u32, k: u32)
    requires
        k < 32,
    ensures
        announced(bm, k) <==> (bm >> k) % 2 == 1,
{
    assert((bm & (1u32 << k) != 0) == ((bm >> k) % 2 == 1)) by (bit_vector)
        requires
            k < 32,
    ;
}

/// The task stands in the plan of its part where its control is announced.
proof fn lemma_when(bm: u32, k: u32, t: CtrlTask)
    requires
        announced(bm, k),
    ensures
        (when(bm, k, t)).contains(t),
{
    assert(when(bm, k, t)[0] == t);
}

/// A picture adjustment of a processing unit and its bit: brightness 2, contrast 3, hue 6,
/// saturation 7, sharpness 8 and gamma 9 have bits 0 to 5, backlight 1 and gain 4 have bits 8
/// and 9.
pub open spec fn adjustment(i: int) -> (u32, u8) {
    seq![(0u32, 2u8), (1, 3), (2, 6), (3, 7), (4, 8), (5, 9), (8, 1), (9, 4)][i]
}

/// Every picture adjustment that a processing unit announces is put back to its default.
pub proof fn law_announced_adjustments_are_restored(pu: u8, bm: u32, i: int)
    requires
        0 <= i < 8,
        (bm >> adjustment(i).0) % 2 == 1,
    ensures
        pu_plan(pu, bm).contains(
            CtrlTask::ApplyDefault { entity: pu, selector: adjustment(i).1 },
        ),
{
    let (k, selector) = adjustment(i);
    let t = CtrlTask::ApplyDefault { entity: pu, selector };
    assert(k < 10);
    lemma_bit_of(bm, k);
    lemma_when(bm, k, t);
    let t0 = when(bm, 0, CtrlTask::ApplyDefault { entity: pu, selector: PU_BRIGHTNESS_CONTROL });
    let t1 = when(bm, 1, CtrlTask::ApplyDefault { entity: pu, selector: PU_CONTRAST_CONTROL });
    let t2 = when(bm, 2, CtrlTask::ApplyDefault { entity: pu, selector: PU_HUE_CONTROL });
    let t3 = when(bm, 3, CtrlTask::ApplyDefault { entity: pu, selector: PU_SATURATION_CONTROL });
    let t4 = when(bm, 4, CtrlTask::ApplyDefault { entity: pu, selector: PU_SHARPNESS_CONTROL });
    let t5 = when(bm, 5, CtrlTask::ApplyDefault { entity: pu, selector: PU_GAMMA_CONTROL });
    let t8 = when(
        bm,
        8,
        CtrlTask::ApplyDefault { entity: pu, selector: PU_BACKLIGHT_COMPENSATION },
    );
    let t9 = when(bm, 9, CtrlTask::ApplyDefault { entity: pu, selector: PU_GAIN_CONTROL });
    lemma_kept(t0, t1, t);
    lemma_kept(t0 + t1, t2, t);
    lemma_kept(t0 + t1 + t2, t3, t);
    lemma_kept(t0 + t1 + t2 + t3, t4, t);
    lemma_kept(t0 + t1 + t2 + t3 + t4, t5, t);
    lemma_kept(t0 + t1 + t2 + t3 + t4 + t5, t8, t);
    lemma_kept(t0 + t1 + t2 + t3 + t4 + t5 + t8, t9, t);
    let hue = when(
        bm,
        11,
        CtrlTask::SetU8 { entity: pu, selector: PU_HUE_AUTO_CONTROL, value: 1 },
    );
    let mains = when(
        bm,
        10,
        CtrlTask::SetU8 { entity: pu, selector: PU_POWER_LINE_FREQUENCY_CONTROL, value: 1 },
    );
    let d = defaults_plan(pu, bm);
    let w = white_balance_plan(pu, bm);
    lemma_kept(d, w, t);
    lemma_kept(d + w, hue, t);
    lemma_kept(d + w + hue, mains, t);
}

/// White balance and flicker of a processing unit. With automatic white balance, control 11 with
/// bit 12, it is switched off, the manual value is put back where control 10 is there, with bit
/// 6, and it is switched on again; without it the manual value gets its default or 4500. The
/// plan ends with automatic hue, control 16 with bit 11, and flicker at 50 Hz, control 5 with bit
/// 10.
pub proof fn law_white_balance_and_flicker(pu: u8, bm: u32)
    ensures
        ({
            let auto = (bm >> 12u32) % 2 == 1;
            let manual = (bm >> 6u32) % 2 == 1;
            let off = CtrlTask::SetU8 { entity: pu, selector: 11, value: 0 };
            let on = CtrlTask::SetU8 { entity: pu, selector: 11, value: 1 };
            let look = CtrlTask::ReadCur { entity: pu, selector: 10 };
            let back = CtrlTask::CopyDefault { entity: pu, selector: 10 };
            let w = white_balance_plan(pu, bm);
            &&& auto && manual ==> w =~= seq![off, back, on, look]
            &&& auto && !manual ==> w =~= seq![off, on, look]
            &&& !auto && manual ==> w =~= seq![
                CtrlTask::DefaultOr { entity: pu, selector: 10, fallback: 4500 },
            ]
            &&& !auto && !manual ==> w.len() == 0
        }),
        pu_plan(pu, bm) =~= defaults_plan(pu, bm) + white_balance_plan(pu, bm) + (if (bm >> 11u32)
            % 2 == 1 {
            seq![CtrlTask::SetU8 { entity: pu, selector: 16, value: 1 }]
        } else {
            Seq::empty()
        }) + (if (bm >> 10u32) % 2 == 1 {
            seq![CtrlTask::SetU8 { entity: pu, selector: 5, value: 1 }]
        } else {
            Seq::empty()
        }),
{
    lemma_bit_of(bm, 12);
    lemma_bit_of(bm, 6);
    lemma_bit_of(bm, 11);
    lemma_bit_of(bm, 10);
}

/// A camera terminal with control 2, bit 1, gets the first exposure mode of 2, 8 and 4 that it
/// takes, and then with control 3, bit 2, leave to slow the frame rate down; with control 8, bit
/// 17, it gets automatic focus. Units come before terminals.
pub proof fn law_exposure_and_focus(ct: u8, bm: u32, e: UvcControlEntities)
    ensures
        ct_plan(ct, bm) =~= (if (bm >> 1u32) % 2 == 1 {
            seq![
                CtrlTask::FirstOf { entity: ct, selector: 2, first: 2, second: 8, third: 4 },
            ]
        } else {
            Seq::empty()
        }) + (if (bm >> 1u32) % 2 == 1 && (bm >> 2u32) % 2 == 1 {
            seq![CtrlTask::SetU8 { entity: ct, selector: 3, value: 1 }]
        } else {
            Seq::empty()
        }) + (if (bm >> 17u32) % 2 == 1 {
            seq![CtrlTask::SetU8 { entity: ct, selector: 8, value: 1 }]
        } else {
            Seq::empty()
        }),
        (e.processing_unit_id matches Some(pu) && e.camera_terminal_id == Some(ct)) ==> control_plan(
            e,
        ) =~= pu_plan(e.processing_unit_id->0, e.pu_controls) + ct_plan(ct, e.ct_controls),
        e.processing_unit_id is None && e.camera_terminal_id is None ==> control_plan(e).len() == 0,
{
    lemma_bit_of(bm, 1);
    lemma_bit_of(bm, 2);
    lemma_bit_of(bm, 17);
}

/// A control that is put back to its default is read, its default is read, and the default is set
/// exactly where the two differ; where either cannot be read, nothing is set.
pub proof fn law_default_is_restored(entity: u8, selector: u8, cur: Option<u16>, def: Option<u16>)
    ensures
        ({
            let t = CtrlTask::ApplyDefault { entity, selector };
            let second = next_access(t, TaskStage::First, CtrlReply::Got(cur));
            &&& first_access(t) == (CtrlOp::GetCur { entity, selector })
            &&& second matches Some((stage, op)) && op == (CtrlOp::GetDef { entity, selector }) && {
                let third = next_access(t, stage, CtrlReply::Got(def));
                &&& third is Some <==> cur is Some && def is Some && cur != def
                &&& third matches Some((last, op)) ==> op == (CtrlOp::SetU16 {
                    entity,
                    selector,
                    word: def->0,
                }) && next_access(t, last, CtrlReply::Accepted(true)) is None && next_access(
                    t,
                    last,
                    CtrlReply::Accepted(false),
                ) is None
            }
        }),
{
}

/// Of three values the first that is accepted stays: the second is tried only behind a refusal of
/// the first, the third only behind one of the second, and then it is over.
pub proof fn law_first_accepted_value_stays(
    entity: u8,
    selector: u8,
    first: u8,
    second: u8,
    third: u8,
    ok: bool,
)
    ensures
        ({
            let t = CtrlTask::FirstOf { entity, selector, first, second, third };
            &&& first_access(t) == (CtrlOp::SetU8 { entity, selector, value: first })
            &&& next_access(t, TaskStage::First, CtrlReply::Accepted(true)) is None
            &&& next_access(t, TaskStage::First, CtrlReply::Accepted(false)) matches Some((s, op))
                && op == (CtrlOp::SetU8 { entity, selector, value: second }) && next_access(
                t,
                s,
                CtrlReply::Accepted(true),
            ) is None && (next_access(t, s, CtrlReply::Accepted(false)) matches Some((u, last))
                && last == (CtrlOp::SetU8 { entity, selector, value: third }) && next_access(
                t,
                u,
                CtrlReply::Accepted(ok),
            ) is None)
        }),
{
}

/// A default that can be read is set; where it cannot, the fallback is, if there is one.
pub proof fn law_default_or_fallback(entity: u8, selector: u8, fallback: u16, def: Option<u16>)
    ensures
        ({
            let copy = CtrlTask::CopyDefault { entity, selector };
            let other = CtrlTask::DefaultOr { entity, selector, fallback };
            let a = next_access(copy, TaskStage::First, CtrlReply::Got(def));
            let b = next_access(other, TaskStage::First, CtrlReply::Got(def));
            &&& first_access(copy) == (CtrlOp::GetDef { entity, selector })
            &&& first_access(other) == (CtrlOp::GetDef { entity, selector })
            &&& def matches Some(d) ==> a == Some(
                (TaskStage::Last, CtrlOp::SetU16 { entity, selector, word: d }),
            ) && b == a
            &&& def is None ==> a is None && b == Some(
                (TaskStage::Last, CtrlOp::SetU16 { entity, selector, word: fallback }),
            )
        }),
{
}

/// The transfers of accesses to a control of an entity on an interface: two bytes are read as the
/// value or as the default, one or two bytes are set, low byte first.
pub proof fn law_access_transfers(entity: u8, selector: u8, interface: u8, value: u8, word: u16)
    ensures
        access_request(CtrlOp::GetCur { entity, selector }, interface) == (RequestView::In {
            setup: seq![0xA1u8, 0x81, 0, selector, interface, entity, 2, 0],
            len: 2,
        }),
        access_request(CtrlOp::GetDef { entity, selector }, interface) == (RequestView::In {
            setup: seq![0xA1u8, 0x87, 0, selector, interface, entity, 2, 0],
            len: 2,
        }),
        access_request(CtrlOp::SetU8 { entity, selector, value }, interface) == (RequestView::Out {
            setup: seq![0x21u8, 0x01, 0, selector, interface, entity, 1, 0],
            data: seq![value],
        }),
        access_request(CtrlOp::SetU16 { entity, selector, word }, interface) == (RequestView::Out {
            setup: seq![0x21u8, 0x01, 0, selector, interface, entity, 2, 0],
            data: seq![(word % 256) as u8, (word / 256) as u8],
        }),
{
    assert(lo8(2) == 2 && hi8(2) == 0 && lo8(1) == 1 && hi8(1) == 0);
}

/// Tasks are begun with the first one, and each is followed by the one behind it; a task that is
/// over leaves no trace in those behind.
pub proof fn law_tasks_go_in_turn(tasks: Seq<CtrlTask>, k: int, stage: TaskStage, reply: CtrlReply)
    requires
        0 <= k < tasks.len(),
        next_access(tasks[k], stage, reply) is None,
    ensures
        task_begins(controls_start(tasks)) == Some(first_access(tasks[0])),
        controls_start(tasks).stage == TaskStage::First,
        ({
            let (n, op) = controls_next(ControlsView { tasks, pos: k, stage }, reply);
            &&& n == (ControlsView { tasks, pos: k + 1, stage: TaskStage::First })
            &&& k + 1 < tasks.len() ==> op == Some(first_access(tasks[k + 1]))
            &&& k + 1 == tasks.len() ==> op is None
        }),
{
}

/// A value is read low byte first; a read that failed brings none.
pub proof fn law_value_is_read_low_byte_first(lo: u8, hi: u8, result: UsbResult<Seq<u8>>)
    ensures
        value_of(Ok(seq![lo, hi])) matches Some(v) && v % 256 == lo && v / 256 == hi,
        result is Err ==> value_of(result) is None,
{
}

} // verus!
