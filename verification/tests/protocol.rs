use ptouch::commands::{
    encode_advanced_mode, encode_compression_mode, encode_init, encode_invalidate, encode_margin,
    encode_print_and_feed, encode_print_info, encode_raster_transfer, encode_raster_zero,
    encode_status_notify, encode_status_request, encode_switch_mode, AdvancedMode,
    CompressionMode, MediaKind, Mode, PrintInfo, VariousMode, ADVANCED_MODE_NO_CHAIN,
    VARIOUS_MODE_AUTO_CUT,
};
use ptouch::commands::encode_various_mode;
use ptouch::device::{DeviceStatus, Status};
use ptouch::print::print_job_frames;
use ptouch::tiff::compress;

#[test]
fn command_frames_are_byte_exact() {
    assert_eq!(encode_invalidate(), vec![0u8; 100]);
    assert_eq!(encode_init(), vec![0x1B, 0x40]);
    assert_eq!(encode_switch_mode(Mode::Raster), vec![0x1B, 0x69, 0x61, 0x01]);
    assert_eq!(encode_status_notify(true), vec![0x1B, 0x69, 0x21, 0x00]);
    assert_eq!(encode_status_notify(false), vec![0x1B, 0x69, 0x21, 0x01]);
    assert_eq!(
        encode_various_mode(VariousMode { bits: VARIOUS_MODE_AUTO_CUT }),
        vec![0x1B, 0x69, 0x4D, 0x40]
    );
    assert_eq!(
        encode_advanced_mode(AdvancedMode { bits: ADVANCED_MODE_NO_CHAIN }),
        vec![0x1B, 0x69, 0x4B, 0x08]
    );
    assert_eq!(encode_margin(14), vec![0x1B, 0x69, 0x64, 0x0E, 0x00]);
    assert_eq!(encode_margin(0x1234), vec![0x1B, 0x69, 0x64, 0x34, 0x12]);
    assert_eq!(encode_compression_mode(CompressionMode::Tiff), vec![0x4D, 0x02]);
    assert_eq!(encode_raster_zero(), vec![0x5A]);
    assert_eq!(encode_print_and_feed(), vec![0x1A]);
    assert_eq!(encode_status_request(), vec![0x1B, 0x69, 0x53]);
}

#[test]
fn print_info_frame_is_byte_exact() {
    let info = PrintInfo {
        kind: Some(MediaKind::LaminatedTape),
        width: Some(24),
        length: None,
        raster_no: 0x01020304,
        recover: false,
    };
    assert_eq!(
        encode_print_info(&info),
        vec![0x1B, 0x69, 0x7A, 0x06, 0x01, 0x18, 0x00, 0x04, 0x03, 0x02, 0x01, 0x00, 0x00]
    );
    let bare = PrintInfo { kind: None, width: None, length: None, raster_no: 1, recover: true };
    assert_eq!(
        encode_print_info(&bare),
        vec![0x1B, 0x69, 0x7A, 0x80, 0x00, 0x00, 0x00, 0x01, 0x00, 0x00, 0x00, 0x00, 0x00]
    );
}

#[test]
fn raster_transfer_prefixes_the_length() {
    let data = vec![0xF1, 0x5A];
    assert_eq!(encode_raster_transfer(&data), vec![0x47, 0x02, 0x00, 0xF1, 0x5A]);
}

#[test]
fn print_sequence_order_for_three_lines() {
    let lines: Vec<[u8; 16]> = vec![[0x11; 16], [0x22; 16], [0x33; 16]];
    let info = PrintInfo { kind: None, width: None, length: None, raster_no: 3, recover: false };
    let frames = print_job_frames(&lines, &info);
    assert_eq!(frames.len(), 11);
    assert_eq!(frames[0], encode_switch_mode(Mode::Raster));
    assert_eq!(frames[1], encode_status_notify(true));
    assert_eq!(frames[2], encode_print_info(&info));
    assert_eq!(frames[3], encode_various_mode(VariousMode { bits: VARIOUS_MODE_AUTO_CUT }));
    assert_eq!(frames[4], encode_advanced_mode(AdvancedMode { bits: ADVANCED_MODE_NO_CHAIN }));
    assert_eq!(frames[5], encode_margin(14));
    assert_eq!(frames[6], encode_compression_mode(CompressionMode::Tiff));
    for (k, line) in lines.iter().enumerate() {
        assert_eq!(frames[7 + k], encode_raster_transfer(&compress(line)));
    }
    assert_eq!(frames[10], encode_print_and_feed());
}

#[test]
fn print_sequence_for_an_empty_job() {
    let lines: Vec<[u8; 16]> = Vec::new();
    let info = PrintInfo { kind: None, width: None, length: None, raster_no: 0, recover: false };
    let frames = print_job_frames(&lines, &info);
    assert_eq!(frames.len(), 8);
    assert_eq!(frames[0], encode_switch_mode(Mode::Raster));
    assert_eq!(frames[7], encode_print_and_feed());
}

#[test]
fn completed_status_decodes_cleanly() {
    let mut frame = [0u8; 32];
    frame[18] = 0x01;
    let s = Status::from_frame(&frame);
    assert_eq!(s.status_type, DeviceStatus::Completed);
    assert!(s.error1.is_empty());
    assert!(s.error2.is_empty());
}

#[test]
fn error_bits_are_preserved_verbatim() {
    let mut frame = [0u8; 32];
    frame[8] = 0x29;
    frame[9] = 0x14;
    frame[18] = 0x02;
    let s = Status::from_frame(&frame);
    assert_eq!(s.status_type, DeviceStatus::ErrorOccurred);
    assert_eq!(s.error1.bits, 0x29);
    assert_eq!(s.error2.bits, 0x14);
    assert!(!s.error1.is_empty());
}

#[test]
fn status_fields_decode_by_position() {
    let mut frame = [0u8; 32];
    frame[4] = 0x30;
    frame[10] = 24;
    frame[11] = 0x01;
    frame[18] = 0x06;
    frame[19] = 0x01;
    frame[20] = 0x00;
    frame[21] = 0x02;
    frame[24] = 0x05;
    frame[25] = 0x08;
    let s = Status::from_frame(&frame);
    assert_eq!(s.model, 0x30);
    assert_eq!(s.media_width, 24);
    assert_eq!(s.media_kind, 0x01);
    assert_eq!(s.status_type, DeviceStatus::PhaseChange);
    assert_eq!(s.phase_type, 0x01);
    assert_eq!(s.phase_number, 2);
    assert_eq!(s.tape_color, 0x05);
    assert_eq!(s.text_color, 0x08);
}

#[test]
fn unknown_status_type_is_other() {
    let mut frame = [0u8; 32];
    frame[18] = 0x00;
    assert_eq!(Status::from_frame(&frame).status_type, DeviceStatus::Other);
    frame[18] = 0x05;
    assert_eq!(Status::from_frame(&frame).status_type, DeviceStatus::Notification);
}
