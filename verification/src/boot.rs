//! The boot decision engine: which image, if any, is run.
//!
//! The engine reads nothing and writes nothing. It is a state machine that
//! answers every event with the next state and with the one action that the
//! platform is to perform; the platform performs it and reports back:
//!
//! ```text
//! ReadBase -> ValidateBase -> Boot -> Handoff
//!     |            |           ^
//!     v            v           |
//!   ReadUpdate -> ValidateUpdate -> PromoteAndBoot
//!     |            |
//!     v            v
//!    Halt         Halt
//! ```
//!
//! The base slot is booted if it passes the four checks; the update slot is
//! then never looked at. Otherwise the update slot is checked and, if it
//! passes, copied over the base slot and booted from there. The copy is
//! trusted: the base slot is not checked a second time.

use crate::image_header::{ImageHeader, APP_BASE_ADDR, APP_UPDATE_ADDR, HEADER_LENGTH};
use crate::validate::{
    spec_ih_validate,
    spec_validate_header,
    spec_validate_payload,
    validate_header,
    validate_payload,
    ValidationError,
};
use vstd::prelude::*;

verus! {

/// The address of the bytes that follow the header of the base slot. The
/// vector table of the application stands there.
pub const APP_BASE_PAYLOAD_ADDR: u32 = APP_BASE_ADDR + 0x100;

/// The address of the bytes that follow the header of the update slot.
pub const APP_UPDATE_PAYLOAD_ADDR: u32 = APP_UPDATE_ADDR + 0x100;

/// What the engine asks the platform to do next.
#[derive(Clone, Copy, Debug, PartialEq, Eq, Structural)]
pub enum BootAction {
    /// Read the header at `addr` and report it with `BootEvent::Header`.
    ReadHeader { addr: u32 },
    /// Read `image_length` bytes at `addr` and report them with
    /// `BootEvent::Payload`.
    ReadPayload { addr: u32, image_length: u32 },
    /// Copy `len` bytes from `src_addr` to `dest_addr`, then report
    /// `BootEvent::Done`.
    Copy { dest_addr: u32, src_addr: u32, len: u64 },
    /// Switch the flash interface to execute-in-place, then report
    /// `BootEvent::Done`.
    EnableXip,
    /// Load stack pointer and reset handler from the vector table at
    /// `vector_table_addr` and branch there. This does not return.
    TransferControl { vector_table_addr: u32 },
    /// Wait forever. This does not return.
    Halt,
}

/// What the platform reports to the engine.
#[derive(Clone, Copy, Debug)]
pub enum BootEvent<'a> {
    /// The header that was read.
    Header(ImageHeader),
    /// The bytes that were read.
    Payload(&'a [u8]),
    /// The copy, or the switch to execute-in-place, is done.
    Done,
}

/// An event as a mathematical value: the bytes are a sequence.
pub enum EventView {
    Header(ImageHeader),
    Payload(Seq<u8>),
    Done,
}

impl<'a> View for BootEvent<'a> {
    type V = EventView;

    open spec fn view(&self) -> EventView {
        match *self {
            BootEvent::Header(header) => EventView::Header(header),
            BootEvent::Payload(body) => EventView::Payload(body@),
            BootEvent::Done => EventView::Done,
        }
    }
}

/// Where the engine stands. Every state but `Handoff`, `Halt` and `Fault`
/// waits for the report on the action that led to it.
#[derive(Clone, Copy, Debug, PartialEq, Eq)]
pub enum BootState {
    /// The header of the base slot was asked for.
    ReadBase,
    /// The header of the base slot passed its checks; the payload was asked
    /// for.
    ValidateBase { header: ImageHeader },
    /// The base slot failed with `base_error`; the header of the update slot
    /// was asked for.
    ReadUpdate { base_error: ValidationError },
    /// The header of the update slot passed its checks; the payload was asked
    /// for.
    ValidateUpdate { base_error: ValidationError, header: ImageHeader },
    /// The update slot is valid; the copy over the base slot was asked for.
    PromoteAndBoot,
    /// The base slot is to be run; the switch to execute-in-place was asked
    /// for.
    Boot,
    /// Control was handed to the application.
    Handoff,
    /// Neither slot is valid.
    Halt { base_error: ValidationError, update_error: ValidationError },
    /// The platform reported what the engine had not asked for, or came back
    /// from the application.
    Fault,
}

/// The state and the action that follow `event` in `state`.
pub open spec fn spec_step(state: BootState, event: EventView) -> (BootState, BootAction) {
    match (state, event) {
        (BootState::ReadBase, EventView::Header(header)) => match spec_validate_header(header@) {
            Ok(_) => (
                BootState::ValidateBase { header },
                BootAction::ReadPayload {
                    addr: APP_BASE_PAYLOAD_ADDR,
                    image_length: header.image_length,
                },
            ),
            Err(e) => (
                BootState::ReadUpdate { base_error: e },
                BootAction::ReadHeader { addr: APP_UPDATE_ADDR },
            ),
        },
        (BootState::ValidateBase { header }, EventView::Payload(body)) => {
            match spec_validate_payload(header@, body) {
                Ok(_) => (BootState::Boot, BootAction::EnableXip),
                Err(e) => (
                    BootState::ReadUpdate { base_error: e },
                    BootAction::ReadHeader { addr: APP_UPDATE_ADDR },
                ),
            }
        },
        (BootState::ReadUpdate { base_error }, EventView::Header(header)) => {
            match spec_validate_header(header@) {
                Ok(_) => (
                    BootState::ValidateUpdate { base_error, header },
                    BootAction::ReadPayload {
                        addr: APP_UPDATE_PAYLOAD_ADDR,
                        image_length: header.image_length,
                    },
                ),
                Err(e) => (BootState::Halt { base_error, update_error: e }, BootAction::Halt),
            }
        },
        (BootState::ValidateUpdate { base_error, header }, EventView::Payload(body)) => {
            match spec_validate_payload(header@, body) {
                Ok(_) => (
                    BootState::PromoteAndBoot,
                    BootAction::Copy {
                        dest_addr: APP_BASE_ADDR,
                        src_addr: APP_UPDATE_ADDR,
                        len: (HEADER_LENGTH + header.image_length) as u64,
                    },
                ),
                Err(e) => (BootState::Halt { base_error, update_error: e }, BootAction::Halt),
            }
        },
        (BootState::PromoteAndBoot, EventView::Done) => (BootState::Boot, BootAction::EnableXip),
        (BootState::Boot, EventView::Done) => (
            BootState::Handoff,
            BootAction::TransferControl { vector_table_addr: APP_BASE_PAYLOAD_ADDR },
        ),
        (BootState::Halt { base_error, update_error }, _) => (state, BootAction::Halt),
        _ => (BootState::Fault, BootAction::Halt),
    }
}

/// The state in which the engine starts, and its first action.
pub open spec fn spec_start() -> (BootState, BootAction) {
    (BootState::ReadBase, BootAction::ReadHeader { addr: APP_BASE_ADDR })
}

/// Starts the engine: the first action is to read the header of the base slot.
pub fn start() -> (first: (BootState, BootAction))
    ensures
        first == spec_start(),
{
    (BootState::ReadBase, BootAction::ReadHeader { addr: APP_BASE_ADDR })
}

/// Answers `event` in `state` with the next state and the next action.
pub fn step(state: BootState, event: BootEvent) -> (next: (BootState, BootAction))
    ensures
        next == spec_step(state, event@),
{
    match (state, event) {
        (BootState::ReadBase, BootEvent::Header(header)) => match validate_header(&header) {
            Ok(_) => (
                BootState::ValidateBase { header },
                BootAction::ReadPayload {
                    addr: APP_BASE_PAYLOAD_ADDR,
                    image_length: header.image_length,
                },
            ),
            Err(e) => (
                BootState::ReadUpdate { base_error: e },
                BootAction::ReadHeader { addr: APP_UPDATE_ADDR },
            ),
        },
        (BootState::ValidateBase { header }, BootEvent::Payload(body)) => {
            match validate_payload(&header, body) {
                Ok(_) => (BootState::Boot, BootAction::EnableXip),
                Err(e) => (
                    BootState::ReadUpdate { base_error: e },
                    BootAction::ReadHeader { addr: APP_UPDATE_ADDR },
                ),
            }
        },
        (BootState::ReadUpdate { base_error }, BootEvent::Header(header)) => {
            match validate_header(&header) {
                Ok(_) => (
                    BootState::ValidateUpdate { base_error, header },
                    BootAction::ReadPayload {
                        addr: APP_UPDATE_PAYLOAD_ADDR,
                        image_length: header.image_length,
                    },
                ),
                Err(e) => (BootState::Halt { base_error, update_error: e }, BootAction::Halt),
            }
        },
        (BootState::ValidateUpdate { base_error, header }, BootEvent::Payload(body)) => {
            match validate_payload(&header, body) {
                Ok(_) => (
                    BootState::PromoteAndBoot,
                    BootAction::Copy {
                        dest_addr: APP_BASE_ADDR,
                        src_addr: APP_UPDATE_ADDR,
                        len: HEADER_LENGTH as u64 + header.image_length as u64,
                    },
                ),
                Err(e) => (BootState::Halt { base_error, update_error: e }, BootAction::Halt),
            }
        },
        (BootState::PromoteAndBoot, BootEvent::Done) => (BootState::Boot, BootAction::EnableXip),
        (BootState::Boot, BootEvent::Done) => (
            BootState::Handoff,
            BootAction::TransferControl { vector_table_addr: APP_BASE_PAYLOAD_ADDR },
        ),
        (BootState::Halt { base_error, update_error }, _) => (
            BootState::Halt { base_error, update_error },
            BootAction::Halt,
        ),
        _ => (BootState::Fault, BootAction::Halt),
    }
}

/// What one slot holds: a header and the bytes that follow it.
pub struct SlotImage {
    pub header: ImageHeader,
    pub body: Seq<u8>,
}

/// What the two slots hold when the engine starts. What the copy writes is not
/// modelled: the engine reads nothing after it.
pub struct Flash {
    pub base: SlotImage,
    pub update: SlotImage,
}

impl SlotImage {
    /// The image passes the four checks.
    pub open spec fn valid(self) -> bool {
        spec_ih_validate(self.header@, self.body) is Ok
    }

    /// The first `len` bytes after the header, or all of them where there are
    /// fewer.
    pub open spec fn read(self, len: u32) -> Seq<u8> {
        if len <= self.body.len() {
            self.body.subrange(0, len as int)
        } else {
            self.body
        }
    }
}

/// The report of a platform that performs `action` on `flash`.
pub open spec fn spec_respond(flash: Flash, action: BootAction) -> EventView {
    match action {
        BootAction::ReadHeader { addr } => if addr == APP_BASE_ADDR {
            EventView::Header(flash.base.header)
        } else {
            EventView::Header(flash.update.header)
        },
        BootAction::ReadPayload { addr, image_length } => if addr == APP_BASE_PAYLOAD_ADDR {
            EventView::Payload(flash.base.read(image_length))
        } else {
            EventView::Payload(flash.update.read(image_length))
        },
        _ => EventView::Done,
    }
}

/// The action does not return to the engine.
pub open spec fn spec_is_final(action: BootAction) -> bool {
    action is TransferControl || action is Halt
}

/// The actions of the engine from `action` in `state` on, as the platform
/// performs them on `flash`: up to the first that does not return, and
/// `fuel + 1` at most.
pub open spec fn spec_trace(flash: Flash, state: BootState, action: BootAction, fuel: nat) -> Seq<
    BootAction,
>
    decreases fuel,
{
    if fuel == 0 || spec_is_final(action) {
        seq![action]
    } else {
        let next = spec_step(state, spec_respond(flash, action));
        seq![action] + spec_trace(flash, next.0, next.1, (fuel - 1) as nat)
    }
}

/// The actions of one boot on `flash`. No boot takes more than seven.
pub open spec fn spec_boot_trace(flash: Flash) -> Seq<BootAction> {
    spec_trace(flash, spec_start().0, spec_start().1, 7)
}

/// The reads that checking the slot at `addr` takes: the header, and the
/// payload where the header passes its checks.
pub open spec fn spec_probe(addr: u32, image: SlotImage) -> Seq<BootAction> {
    if spec_validate_header(image.header@) is Ok {
        seq![
            BootAction::ReadHeader { addr },
            BootAction::ReadPayload {
                addr: (addr + HEADER_LENGTH) as u32,
                image_length: image.header.image_length,
            },
        ]
    } else {
        seq![BootAction::ReadHeader { addr }]
    }
}

/// The copy of the whole update image, header and payload, over the base slot.
pub open spec fn spec_promote(image: SlotImage) -> BootAction {
    BootAction::Copy {
        dest_addr: APP_BASE_ADDR,
        src_addr: APP_UPDATE_ADDR,
        len: (HEADER_LENGTH + image.header.image_length) as u64,
    }
}

/// The handoff: execute-in-place is switched on, then control goes to the
/// application in the base slot.
pub open spec fn spec_handoff() -> Seq<BootAction> {
    seq![
        BootAction::EnableXip,
        BootAction::TransferControl { vector_table_addr: APP_BASE_PAYLOAD_ADDR },
    ]
}

/// What is done once the base slot has failed: the update slot is checked,
/// then copied and booted, or the device halts.
pub open spec fn spec_update_plan(flash: Flash) -> Seq<BootAction> {
    if flash.update.valid() {
        spec_probe(APP_UPDATE_ADDR, flash.update) + seq![spec_promote(flash.update)]
            + spec_handoff()
    } else {
        spec_probe(APP_UPDATE_ADDR, flash.update) + seq![BootAction::Halt]
    }
}

/// The boot policy: what is done on `flash`, in order.
pub open spec fn spec_boot_plan(flash: Flash) -> Seq<BootAction> {
    if flash.base.valid() {
        spec_probe(APP_BASE_ADDR, flash.base) + spec_handoff()
    } else {
        spec_probe(APP_BASE_ADDR, flash.base) + spec_update_plan(flash)
    }
}

/// The action reads from a slot.
pub open spec fn spec_is_read(action: BootAction) -> bool {
    action is ReadHeader || action is ReadPayload
}

/// The payload check on the bytes that the platform reads for a header is the
/// check on all the bytes that follow the header.
pub proof fn lemma_read_payload(image: SlotImage)
    ensures
        spec_validate_payload(image.header@, image.read(image.header.image_length))
            == spec_validate_payload(image.header@, image.body),
{
    let len = image.header.image_length;
    if len <= image.body.len() {
        assert(image.read(len).subrange(0, len as int) =~= image.body.subrange(0, len as int));
    }
}

/// From the switch to execute-in-place on, the boot is the handoff.
proof fn lemma_trace_from_boot(flash: Flash, fuel: nat)
    requires
        fuel >= 1,
    ensures
        spec_trace(flash, BootState::Boot, BootAction::EnableXip, fuel) == spec_handoff(),
{
    reveal_with_fuel(spec_trace, 2);
    assert(spec_trace(flash, BootState::Boot, BootAction::EnableXip, fuel) =~= spec_handoff());
}

/// From the read of the update header on, the boot is what the policy says of
/// the update slot.
proof fn lemma_trace_from_update(flash: Flash, base_error: ValidationError, fuel: nat)
    requires
        fuel >= 4,
    ensures
        spec_trace(
            flash,
            BootState::ReadUpdate { base_error },
            BootAction::ReadHeader { addr: APP_UPDATE_ADDR },
            fuel,
        ) == spec_update_plan(flash),
{
    let header = flash.update.header;
    let state = BootState::ReadUpdate { base_error };
    let action = BootAction::ReadHeader { addr: APP_UPDATE_ADDR };
    let plan = spec_update_plan(flash);
    lemma_read_payload(flash.update);
    let next = spec_step(state, spec_respond(flash, action));
    assert(spec_trace(flash, state, action, fuel) == seq![action] + spec_trace(
        flash,
        next.0,
        next.1,
        (fuel - 1) as nat,
    ));
    match spec_validate_header(header@) {
        Err(e) => {
            assert(spec_trace(flash, next.0, next.1, (fuel - 1) as nat) == seq![BootAction::Halt]);
            assert(spec_trace(flash, state, action, fuel) =~= plan);
        },
        Ok(_) => {
            let after = spec_step(next.0, spec_respond(flash, next.1));
            assert(spec_trace(flash, next.0, next.1, (fuel - 1) as nat) == seq![next.1]
                + spec_trace(flash, after.0, after.1, (fuel - 2) as nat));
            if flash.update.valid() {
                lemma_trace_from_boot(flash, (fuel - 3) as nat);
                assert(spec_trace(flash, after.0, after.1, (fuel - 2) as nat) == seq![after.1]
                    + spec_trace(
                    flash,
                    BootState::Boot,
                    BootAction::EnableXip,
                    (fuel - 3) as nat,
                ));
                assert(spec_trace(flash, state, action, fuel) =~= plan);
            } else {
                assert(spec_trace(flash, after.0, after.1, (fuel - 2) as nat) == seq![
                    BootAction::Halt,
                ]);
                assert(spec_trace(flash, state, action, fuel) =~= plan);
            }
        },
    }
}

/// The engine follows the boot policy: the actions of a boot are those of the
/// plan, in the plan's order.
pub proof fn lemma_boot_follows_plan(flash: Flash)
    ensures
        spec_boot_trace(flash) == spec_boot_plan(flash),
{
    let header = flash.base.header;
    let state = spec_start().0;
    let action = spec_start().1;
    lemma_read_payload(flash.base);
    let next = spec_step(state, spec_respond(flash, action));
    assert(spec_trace(flash, state, action, 7) == seq![action] + spec_trace(
        flash,
        next.0,
        next.1,
        6,
    ));
    match spec_validate_header(header@) {
        Err(e) => {
            lemma_trace_from_update(flash, e, 6);
            assert(spec_boot_trace(flash) =~= spec_boot_plan(flash));
        },
        Ok(_) => {
            let after = spec_step(next.0, spec_respond(flash, next.1));
            assert(spec_trace(flash, next.0, next.1, 6) == seq![next.1] + spec_trace(
                flash,
                after.0,
                after.1,
                5,
            ));
            if flash.base.valid() {
                lemma_trace_from_boot(flash, 5);
                assert(spec_boot_trace(flash) =~= spec_boot_plan(flash));
            } else {
                lemma_trace_from_update(flash, ValidationError::BadPayloadCrc, 5);
                assert(spec_boot_trace(flash) =~= spec_boot_plan(flash));
            }
        },
    }
}

/// A valid base slot is booted as it is: nothing is copied and the update slot
/// is not read.
pub proof fn lemma_boot_valid_base(flash: Flash)
    requires
        flash.base.valid(),
    ensures
        spec_boot_trace(flash) == seq![
            (BootAction::ReadHeader { addr: APP_BASE_ADDR }),
            (BootAction::ReadPayload {
                addr: APP_BASE_PAYLOAD_ADDR,
                image_length: flash.base.header.image_length,
            }),
            BootAction::EnableXip,
            (BootAction::TransferControl { vector_table_addr: APP_BASE_PAYLOAD_ADDR }),
        ],
{
    lemma_boot_follows_plan(flash);
    assert(spec_boot_plan(flash) =~= seq![
        (BootAction::ReadHeader { addr: APP_BASE_ADDR }),
        (BootAction::ReadPayload {
            addr: APP_BASE_PAYLOAD_ADDR,
            image_length: flash.base.header.image_length,
        }),
        BootAction::EnableXip,
        (BootAction::TransferControl { vector_table_addr: APP_BASE_PAYLOAD_ADDR }),
    ]);
}

/// With an invalid base slot and a valid update slot, the boot ends in the
/// handoff, and in front of it stands the one copy of the boot: header and
/// payload of the update image, from the update slot to the base slot. The
/// update slot is read once, before the copy, and what comes before that are
/// reads of the base slot.
pub proof fn lemma_boot_promotes_update(flash: Flash)
    requires
        !flash.base.valid(),
        flash.update.valid(),
    ensures
        spec_boot_trace(flash) == spec_probe(APP_BASE_ADDR, flash.base) + seq![
            (BootAction::ReadHeader { addr: APP_UPDATE_ADDR }),
            (BootAction::ReadPayload {
                addr: APP_UPDATE_PAYLOAD_ADDR,
                image_length: flash.update.header.image_length,
            }),
            (BootAction::Copy {
                dest_addr: APP_BASE_ADDR,
                src_addr: APP_UPDATE_ADDR,
                len: (HEADER_LENGTH + flash.update.header.image_length) as u64,
            }),
            BootAction::EnableXip,
            (BootAction::TransferControl { vector_table_addr: APP_BASE_PAYLOAD_ADDR }),
        ],
        forall|i: int|
            0 <= i < spec_probe(APP_BASE_ADDR, flash.base).len() ==> spec_is_read(
                #[trigger] spec_probe(APP_BASE_ADDR, flash.base)[i],
            ),
{
    lemma_boot_follows_plan(flash);
    assert(spec_boot_plan(flash) =~= spec_probe(APP_BASE_ADDR, flash.base) + seq![
        (BootAction::ReadHeader { addr: APP_UPDATE_ADDR }),
        (BootAction::ReadPayload {
            addr: APP_UPDATE_PAYLOAD_ADDR,
            image_length: flash.update.header.image_length,
        }),
        (BootAction::Copy {
            dest_addr: APP_BASE_ADDR,
            src_addr: APP_UPDATE_ADDR,
            len: (HEADER_LENGTH + flash.update.header.image_length) as u64,
        }),
        BootAction::EnableXip,
        (BootAction::TransferControl { vector_table_addr: APP_BASE_PAYLOAD_ADDR }),
    ]);
}

/// With two invalid slots the boot ends in `Halt`, and every action before
/// that is a read: nothing is copied, execute-in-place is not switched on, and
/// control is handed to nobody.
pub proof fn lemma_boot_halts(flash: Flash)
    requires
        !flash.base.valid(),
        !flash.update.valid(),
    ensures
        spec_boot_trace(flash).last() == BootAction::Halt,
        forall|i: int|
            0 <= i < spec_boot_trace(flash).len() - 1 ==> spec_is_read(
                #[trigger] spec_boot_trace(flash)[i],
            ),
{
    lemma_boot_follows_plan(flash);
}

/// Execute-in-place is switched on at most once in a boot, and only as the
/// last action before control is handed over: nothing is copied after it.
pub proof fn lemma_xip_just_before_handoff(flash: Flash, i: int)
    requires
        0 <= i < spec_boot_trace(flash).len(),
        spec_boot_trace(flash)[i] is EnableXip,
    ensures
        i + 2 == spec_boot_trace(flash).len(),
        spec_boot_trace(flash)[i + 1] is TransferControl,
{
    lemma_boot_follows_plan(flash);
}

} // verus!
