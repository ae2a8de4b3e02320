use blxlib::boot::{
    start, step, BootAction, BootEvent, BootState, APP_BASE_PAYLOAD_ADDR, APP_UPDATE_PAYLOAD_ADDR,
};
use blxlib::crc32::crc32;
use blxlib::image_header::{
    as_bytes_with_len, load_from_buf, ImageHeader, APP_BASE_ADDR, APP_UPDATE_ADDR,
};
use blxlib::validate::ValidationError;

struct Flash {
    base: Vec<u8>,
    update: Vec<u8>,
    header_reads: Vec<u32>,
    copies: usize,
    xip_enables: usize,
    handoffs: usize,
}

fn image(payload: &[u8]) -> Vec<u8> {
    let mut ih = ImageHeader::new();
    ih.image_length = payload.len() as u32;
    ih.payload_crc = crc32(payload);
    ih.set_crc32();
    let mut out = as_bytes_with_len(&ih, 256);
    out.extend_from_slice(payload);
    out
}

fn flash(base: Vec<u8>, update: Vec<u8>) -> Flash {
    Flash { base, update, header_reads: Vec::new(), copies: 0, xip_enables: 0, handoffs: 0 }
}

fn read(slot: &[u8], len: u32) -> Vec<u8> {
    let mut bytes = slot[256..].to_vec();
    bytes.resize(len as usize, 0xff);
    bytes
}

fn boot(flash: &mut Flash) -> (BootState, Vec<BootAction>) {
    let (mut state, mut action) = start();
    let mut actions = vec![action];
    for _ in 0..16 {
        let payload;
        let event = match action {
            BootAction::ReadHeader { addr } => {
                flash.header_reads.push(addr);
                let slot = if addr == APP_BASE_ADDR { &flash.base } else { &flash.update };
                BootEvent::Header(load_from_buf(slot))
            }
            BootAction::ReadPayload { addr, image_length } => {
                let slot = if addr == APP_BASE_PAYLOAD_ADDR { &flash.base } else { &flash.update };
                payload = read(slot, image_length);
                BootEvent::Payload(&payload)
            }
            BootAction::Copy { dest_addr, src_addr, len } => {
                assert_eq!(dest_addr, APP_BASE_ADDR);
                assert_eq!(src_addr, APP_UPDATE_ADDR);
                flash.copies += 1;
                flash.base = flash.update[0..len as usize].to_vec();
                BootEvent::Done
            }
            BootAction::EnableXip => {
                flash.xip_enables += 1;
                BootEvent::Done
            }
            BootAction::TransferControl { .. } => {
                flash.handoffs += 1;
                return (state, actions);
            }
            BootAction::Halt => return (state, actions),
        };
        let next = step(state, event);
        state = next.0;
        action = next.1;
        actions.push(action);
    }
    panic!("the engine did not come to an end");
}

#[test]
fn first_action_reads_the_base_header() {
    assert_eq!(start(), (BootState::ReadBase, BootAction::ReadHeader { addr: 0x1002_0000 }));
}

#[test]
fn payload_addresses_follow_the_headers() {
    assert_eq!(APP_BASE_PAYLOAD_ADDR, 0x1002_0100);
    assert_eq!(APP_UPDATE_PAYLOAD_ADDR, 0x1010_0100);
}

#[test]
fn valid_base_is_booted_and_update_not_inspected() {
    let mut flash = flash(image(b"base app"), image(b"update app"));
    let (state, actions) = boot(&mut flash);
    assert_eq!(state, BootState::Handoff);
    assert_eq!(
        actions,
        vec![
            BootAction::ReadHeader { addr: 0x1002_0000 },
            BootAction::ReadPayload { addr: 0x1002_0100, image_length: 8 },
            BootAction::EnableXip,
            BootAction::TransferControl { vector_table_addr: 0x1002_0100 },
        ]
    );
    assert_eq!(flash.header_reads, vec![APP_BASE_ADDR]);
    assert_eq!(flash.copies, 0);
    assert_eq!(flash.handoffs, 1);
    assert_eq!(flash.base, image(b"base app"));
}

#[test]
fn base_with_bad_payload_crc_and_valid_update_promotes_once() {
    let mut base = image(b"base app");
    let last = base.len() - 1;
    base[last] ^= 0x01;
    let update = image(b"the update image");
    let mut flash = flash(base, update.clone());
    let (state, actions) = boot(&mut flash);
    assert_eq!(state, BootState::Handoff);
    assert_eq!(
        actions,
        vec![
            BootAction::ReadHeader { addr: 0x1002_0000 },
            BootAction::ReadPayload { addr: 0x1002_0100, image_length: 8 },
            BootAction::ReadHeader { addr: 0x1010_0000 },
            BootAction::ReadPayload { addr: 0x1010_0100, image_length: 16 },
            BootAction::Copy { dest_addr: 0x1002_0000, src_addr: 0x1010_0000, len: 256 + 16 },
            BootAction::EnableXip,
            BootAction::TransferControl { vector_table_addr: 0x1002_0100 },
        ]
    );
    assert_eq!(flash.copies, 1);
    assert_eq!(flash.xip_enables, 1);
    assert_eq!(flash.handoffs, 1);
    assert_eq!(flash.header_reads, vec![APP_BASE_ADDR, APP_UPDATE_ADDR]);
    assert_eq!(flash.base, update);
}

#[test]
fn base_failure_is_kept_in_the_state() {
    let mut base = image(b"base app");
    let last = base.len() - 1;
    base[last] ^= 0x01;
    let header = load_from_buf(&base);
    let (state, _) = start();
    let (state, action) = step(state, BootEvent::Header(header));
    assert_eq!(state, BootState::ValidateBase { header });
    assert_eq!(action, BootAction::ReadPayload { addr: 0x1002_0100, image_length: 8 });
    let (state, action) = step(state, BootEvent::Payload(&base[256..]));
    assert_eq!(state, BootState::ReadUpdate { base_error: ValidationError::BadPayloadCrc });
    assert_eq!(action, BootAction::ReadHeader { addr: 0x1010_0000 });
}

#[test]
fn base_with_bad_header_skips_its_payload() {
    let mut base = image(b"base app");
    base[0] = 0;
    let mut flash = flash(base, image(b"ok"));
    let (state, actions) = boot(&mut flash);
    assert_eq!(state, BootState::Handoff);
    assert_eq!(
        actions,
        vec![
            BootAction::ReadHeader { addr: 0x1002_0000 },
            BootAction::ReadHeader { addr: 0x1010_0000 },
            BootAction::ReadPayload { addr: 0x1010_0100, image_length: 2 },
            BootAction::Copy { dest_addr: 0x1002_0000, src_addr: 0x1010_0000, len: 258 },
            BootAction::EnableXip,
            BootAction::TransferControl { vector_table_addr: 0x1002_0100 },
        ]
    );
    assert_eq!(flash.copies, 1);
}

#[test]
fn both_slots_invalid_halts_without_handoff() {
    let mut base = image(b"base app");
    base[0] = 0;
    let mut update = image(b"update");
    update[256] ^= 0xff;
    let mut flash = flash(base.clone(), update);
    let (state, actions) = boot(&mut flash);
    assert_eq!(
        state,
        BootState::Halt {
            base_error: ValidationError::BadMagic,
            update_error: ValidationError::BadPayloadCrc,
        }
    );
    assert_eq!(
        actions,
        vec![
            BootAction::ReadHeader { addr: 0x1002_0000 },
            BootAction::ReadHeader { addr: 0x1010_0000 },
            BootAction::ReadPayload { addr: 0x1010_0100, image_length: 6 },
            BootAction::Halt,
        ]
    );
    assert_eq!(flash.handoffs, 0);
    assert_eq!(flash.xip_enables, 0);
    assert_eq!(flash.copies, 0);
    assert_eq!(flash.base, base);
}

#[test]
fn erased_flash_halts() {
    let mut flash = flash(vec![0xff; 512], vec![0xff; 512]);
    let (state, actions) = boot(&mut flash);
    assert_eq!(
        state,
        BootState::Halt {
            base_error: ValidationError::BadMagic,
            update_error: ValidationError::BadMagic,
        }
    );
    assert_eq!(
        actions,
        vec![
            BootAction::ReadHeader { addr: 0x1002_0000 },
            BootAction::ReadHeader { addr: 0x1010_0000 },
            BootAction::Halt,
        ]
    );
    assert_eq!(flash.handoffs, 0);
}

#[test]
fn each_header_failure_of_the_update_slot_halts() {
    let mut bad_length = ImageHeader::new();
    bad_length.header_length = 64;
    bad_length.set_crc32();
    let mut bad_crc = ImageHeader::new();
    bad_crc.set_crc32();
    bad_crc.crc32 = !bad_crc.crc32;
    let state = BootState::ReadUpdate { base_error: ValidationError::BadHeaderCrc };
    assert_eq!(
        step(state, BootEvent::Header(bad_length)),
        (
            BootState::Halt {
                base_error: ValidationError::BadHeaderCrc,
                update_error: ValidationError::BadHeaderLength,
            },
            BootAction::Halt
        )
    );
    assert_eq!(
        step(state, BootEvent::Header(bad_crc)),
        (
            BootState::Halt {
                base_error: ValidationError::BadHeaderCrc,
                update_error: ValidationError::BadHeaderCrc,
            },
            BootAction::Halt
        )
    );
}

#[test]
fn halt_stays_halted() {
    let halted = BootState::Halt {
        base_error: ValidationError::BadMagic,
        update_error: ValidationError::BadHeaderCrc,
    };
    assert_eq!(step(halted, BootEvent::Done), (halted, BootAction::Halt));
    assert_eq!(step(halted, BootEvent::Header(ImageHeader::new())), (halted, BootAction::Halt));
    assert_eq!(step(halted, BootEvent::Payload(&[1, 2, 3])), (halted, BootAction::Halt));
}

#[test]
fn unexpected_reports_end_in_fault() {
    let fault = (BootState::Fault, BootAction::Halt);
    assert_eq!(step(BootState::ReadBase, BootEvent::Done), fault);
    assert_eq!(step(BootState::ReadBase, BootEvent::Payload(&[])), fault);
    assert_eq!(step(BootState::Boot, BootEvent::Header(ImageHeader::new())), fault);
    assert_eq!(step(BootState::PromoteAndBoot, BootEvent::Payload(&[])), fault);
    assert_eq!(step(BootState::Handoff, BootEvent::Done), fault);
    assert_eq!(step(BootState::Fault, BootEvent::Done), fault);
    let header = ImageHeader::new();
    assert_eq!(step(BootState::ValidateBase { header }, BootEvent::Done), fault);
}

#[test]
fn handoff_steps() {
    assert_eq!(
        step(BootState::PromoteAndBoot, BootEvent::Done),
        (BootState::Boot, BootAction::EnableXip)
    );
    assert_eq!(
        step(BootState::Boot, BootEvent::Done),
        (BootState::Handoff, BootAction::TransferControl { vector_table_addr: 0x1002_0100 })
    );
}

#[test]
fn copy_length_does_not_wrap() {
    let mut header = ImageHeader::new();
    header.image_length = u32::MAX;
    header.payload_crc = 0;
    let state =
        BootState::ValidateUpdate { base_error: ValidationError::BadMagic, header };
    let (next, action) = step(state, BootEvent::Payload(&[]));
    assert_eq!(
        next,
        BootState::Halt {
            base_error: ValidationError::BadMagic,
            update_error: ValidationError::BadPayloadCrc,
        }
    );
    assert_eq!(action, BootAction::Halt);

    let payload = [0u8; 4];
    header.image_length = 4;
    header.payload_crc = crc32(&payload);
    let state =
        BootState::ValidateUpdate { base_error: ValidationError::BadMagic, header };
    let (next, action) = step(state, BootEvent::Payload(&payload));
    assert_eq!(next, BootState::PromoteAndBoot);
    assert_eq!(
        action,
        BootAction::Copy { dest_addr: 0x1002_0000, src_addr: 0x1010_0000, len: 260 }
    );
}
