use telink_ota::packet::REPORT_SIZE;
use telink_ota::session::{chunk_data, FlashError, FlashPlan, FlashStep, MAX_IMAGE_LEN};

fn ack_for(offset: u32) -> [u8; REPORT_SIZE] {
    let mut resp = [0u8; REPORT_SIZE];
    resp[2] = 0x01;
    let next = ((offset >> 4) as u16 + 1).to_le_bytes();
    resp[9] = next[0];
    resp[10] = next[1];
    resp
}

#[test]
fn empty_and_oversized_images_are_refused() {
    assert_eq!(FlashPlan::new(0).err(), Some(FlashError::EmptyImage));
    assert_eq!(FlashPlan::new(MAX_IMAGE_LEN + 1).err(), Some(FlashError::ImageTooLarge));
    assert!(FlashPlan::new(MAX_IMAGE_LEN).is_ok());
}

#[test]
fn acknowledged_chunks_advance_then_finish_with_the_last_offset() {
    let mut plan = FlashPlan::new(40).unwrap();
    assert_eq!(plan.offset(), 0);
    assert_eq!(plan.on_response(Some(&ack_for(0))), FlashStep::SendChunk { offset: 16 });
    assert_eq!(plan.acked_bytes(), 16);
    assert_eq!(plan.on_response(Some(&ack_for(16))), FlashStep::SendChunk { offset: 32 });
    assert_eq!(plan.on_response(Some(&ack_for(32))), FlashStep::Finish { last_chunk_offset: 32 });
    assert_eq!(plan.acked_bytes(), 40);
}

#[test]
fn a_chunk_is_resent_then_given_up_after_three_sends() {
    let mut plan = FlashPlan::new(64).unwrap();
    assert_eq!(plan.on_response(Some(&ack_for(0))), FlashStep::SendChunk { offset: 16 });
    assert_eq!(plan.on_response(None), FlashStep::SendChunk { offset: 16 });
    // An echo of the address just sent is no acknowledgement.
    assert_eq!(plan.on_response(Some(&ack_for(0))), FlashStep::SendChunk { offset: 16 });
    assert_eq!(plan.on_response(None), FlashStep::GiveUp { offset: 16 });
}

#[test]
fn a_retry_that_succeeds_restarts_the_count() {
    let mut plan = FlashPlan::new(48).unwrap();
    assert_eq!(plan.on_response(None), FlashStep::SendChunk { offset: 0 });
    assert_eq!(plan.on_response(None), FlashStep::SendChunk { offset: 0 });
    assert_eq!(plan.on_response(Some(&ack_for(0))), FlashStep::SendChunk { offset: 16 });
    assert_eq!(plan.on_response(None), FlashStep::SendChunk { offset: 16 });
    assert_eq!(plan.on_response(None), FlashStep::SendChunk { offset: 16 });
    assert_eq!(plan.on_response(Some(&ack_for(16))), FlashStep::SendChunk { offset: 32 });
}

#[test]
fn single_chunk_image_finishes_at_offset_zero() {
    let mut plan = FlashPlan::new(16).unwrap();
    assert_eq!(plan.on_response(Some(&ack_for(0))), FlashStep::Finish { last_chunk_offset: 0 });
}

#[test]
fn chunk_data_pads_the_tail_with_ff() {
    let image: Vec<u8> = (0u8..20).collect();
    let first = chunk_data(&image, 0);
    assert_eq!(&first[..], &image[0..16]);
    let last = chunk_data(&image, 16);
    assert_eq!(&last[..4], &[16, 17, 18, 19]);
    assert!(last[4..].iter().all(|&b| b == 0xFF));
}
