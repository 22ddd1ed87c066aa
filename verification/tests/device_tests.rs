use tuxedo_control::tuxedo_io::{
    clevo_percent_to_raw, clevo_raw_to_percent, detect_fan_count, detect_interface, fan_info_request,
    hardware_check_requests, pack_clevo_speeds, HardwareInterface, IoError, ReadRequest, TuxedoIo, WriteRequest,
    IOCTL_MAGIC, MAGIC_READ_CL, MAGIC_READ_UW,
};

#[test]
fn interface_detection_prefers_hardware_checks_then_probes() {
    assert_eq!(detect_interface(Some(1), Some(1), false, false), HardwareInterface::Clevo);
    assert_eq!(detect_interface(Some(0), Some(1), true, false), HardwareInterface::Uniwill);
    assert_eq!(detect_interface(None, None, true, true), HardwareInterface::Clevo);
    assert_eq!(detect_interface(None, Some(0), false, true), HardwareInterface::Uniwill);
    assert_eq!(detect_interface(None, None, false, false), HardwareInterface::NoneFound);
}

#[test]
fn request_numbers_match_the_driver() {
    let (cl, uw) = hardware_check_requests();
    assert_eq!(cl, ReadRequest { magic: IOCTL_MAGIC, seq: 0x05, pointer_sized: true });
    assert_eq!(uw, ReadRequest { magic: IOCTL_MAGIC, seq: 0x06, pointer_sized: true });
    assert_eq!(fan_info_request(HardwareInterface::Uniwill, 1), ReadRequest { magic: MAGIC_READ_UW, seq: 0x11, pointer_sized: true });
}

#[test]
fn clevo_fans_are_counted_until_one_reports_no_temperature() {
    let present = 40 << 16;
    let absent = 1 << 16;
    assert_eq!(detect_fan_count(HardwareInterface::Clevo, &vec![present, present, absent], false, false), 2);
    assert_eq!(detect_fan_count(HardwareInterface::Clevo, &vec![present, absent, present], false, false), 1);
    assert_eq!(detect_fan_count(HardwareInterface::Clevo, &vec![present, present, present, present], false, false), 3);
    assert_eq!(detect_fan_count(HardwareInterface::Uniwill, &vec![], true, false), 1);
    assert_eq!(detect_fan_count(HardwareInterface::Uniwill, &vec![], true, true), 2);
    assert_eq!(detect_fan_count(HardwareInterface::Uniwill, &vec![], false, true), 0);
    assert_eq!(detect_fan_count(HardwareInterface::NoneFound, &vec![present], true, true), 0);
}

#[test]
fn percent_round_trips_through_a_clevo_byte() {
    for p in 0..=120u32 {
        let raw = clevo_percent_to_raw(p);
        assert_eq!(clevo_raw_to_percent(raw), p.min(100));
    }
    assert_eq!(clevo_percent_to_raw(50), 128);
    assert_eq!(clevo_raw_to_percent(255), 100);
    assert_eq!(clevo_raw_to_percent(1), 0);
}

#[test]
fn speeds_pack_one_byte_per_fan() {
    assert_eq!(pack_clevo_speeds(0x11, 0x22, 0x33), 0x332211);
    assert_eq!(pack_clevo_speeds(255, 0, 0), 255);
}

#[test]
fn clevo_speed_write_keeps_other_fans() {
    let io = TuxedoIo::new(HardwareInterface::Clevo, 3);
    let current = vec![Some(0x40), Some(0x1234_0080), None];
    let w = io.set_fan_speed(2, 100, &current).unwrap();
    assert_eq!(w, WriteRequest::ClevoFanSpeed(0x40 | (0x80 << 8) | (255 << 16)));
    let w = io.set_fan_speed(0, 150, &current).unwrap();
    assert_eq!(w, WriteRequest::ClevoFanSpeed(255 | (0x80 << 8)));
}

#[test]
fn uniwill_speed_write_is_held_at_200_and_refuses_a_third_fan() {
    let io = TuxedoIo::new(HardwareInterface::Uniwill, 2);
    assert_eq!(io.set_fan_speed(0, 300, &vec![]), Ok(WriteRequest::UniwillFanSpeed(200)));
    assert_eq!(io.set_fan_speed(1, 40, &vec![]), Ok(WriteRequest::UniwillFanSpeed2(40)));
    assert_eq!(io.set_fan_speed(2, 40, &vec![]), Err(IoError::InvalidFanId));
}

#[test]
fn device_without_interface_refuses_writes() {
    let io = TuxedoIo::new(HardwareInterface::NoneFound, 0);
    assert_eq!(io.set_fan_auto(), Err(IoError::NoInterface));
    assert_eq!(io.set_fan_speed(0, 10, &vec![]), Err(IoError::NoInterface));
    assert_eq!(io.set_performance_profile(0), Err(IoError::NoInterface));
    assert_eq!(io.fan_speed_request(0), Err(IoError::NoInterface));
}

#[test]
fn fan_reads_decode_each_interface() {
    let cl = TuxedoIo::new(HardwareInterface::Clevo, 3);
    assert_eq!(cl.fan_speed_request(1), Ok(ReadRequest { magic: MAGIC_READ_CL, seq: 0x11, pointer_sized: true }));
    assert_eq!(cl.fan_speed_request(3), Err(IoError::InvalidFanId));
    assert_eq!(cl.fan_speed_from_raw(0x0033_00FF), 100);
    assert_eq!(cl.fan_temperature_from_raw(0x0033_00FF), Ok(0x33));
    assert_eq!(cl.fan_temperature_from_raw(0x0001_00FF), Err(IoError::FanNotAvailable));
    let uw = TuxedoIo::new(HardwareInterface::Uniwill, 2);
    assert_eq!(uw.fan_temperature_request(1), Ok(ReadRequest { magic: MAGIC_READ_UW, seq: 0x13, pointer_sized: true }));
    assert_eq!(uw.fan_speed_from_raw(42), 42);
    assert_eq!(uw.fan_temperature_from_raw(55), Ok(55));
}

#[test]
fn profiles_tdp_and_webcam_requests() {
    let cl = TuxedoIo::new(HardwareInterface::Clevo, 2);
    assert_eq!(cl.get_available_profiles(0), vec!["Power Saving", "Balanced", "Performance"]);
    assert_eq!(cl.set_performance_profile(1), Ok(WriteRequest::ClevoPerfProfile(2)));
    assert_eq!(cl.tdp_request(0, 0), Err(IoError::TdpUnsupported));
    assert_eq!(cl.set_webcam_state(true), Ok(WriteRequest::ClevoWebcam(1)));
    assert!(cl.webcam_state_from_raw(1));
    assert!(!cl.webcam_state_from_raw(0));
    let uw = TuxedoIo::new(HardwareInterface::Uniwill, 2);
    assert_eq!(uw.get_available_profiles(3), vec!["Power Saving", "Enthusiast", "Overboost"]);
    assert_eq!(uw.get_available_profiles(2), vec!["Power Saving", "Enthusiast"]);
    assert!(uw.get_available_profiles(1).is_empty());
    assert_eq!(uw.tdp_request(1, 2), Ok(ReadRequest { magic: MAGIC_READ_UW, seq: 0x18 + 6 + 1, pointer_sized: false }));
    assert_eq!(uw.tdp_request(3, 0), Err(IoError::InvalidTdpIndex));
    assert_eq!(uw.set_tdp(2, 35), Ok(WriteRequest::UniwillTdp { index: 2, value: 35 }));
    assert_eq!(uw.set_webcam_state(true), Err(IoError::WebcamUnsupported));
    assert_eq!(uw.webcam_request(), Err(IoError::WebcamUnsupported));
}

#[test]
fn fan_and_tdp_values_from_answers() {
    let cl = TuxedoIo::new(HardwareInterface::Clevo, 3);
    assert_eq!(cl.get_fan_speed(0, 0x0033_00FF), Ok(100));
    assert_eq!(cl.get_fan_speed(3, 0x0033_00FF), Err(IoError::InvalidFanId));
    assert_eq!(cl.get_fan_temperature(2, 0x0040_0000), Ok(0x40));
    assert_eq!(cl.get_fan_temperature(1, 0x0001_0000), Err(IoError::FanNotAvailable));
    assert_eq!(cl.get_tdp(0, 35), Err(IoError::TdpUnsupported));
    let uw = TuxedoIo::new(HardwareInterface::Uniwill, 2);
    assert_eq!(uw.get_fan_speed(1, 42), Ok(42));
    assert_eq!(uw.get_fan_speed(2, 42), Err(IoError::InvalidFanId));
    assert_eq!(uw.get_fan_temperature(0, 61), Ok(61));
    assert_eq!(uw.get_tdp(2, 35), Ok(35));
    assert_eq!(uw.get_tdp_min(1, 10), Ok(10));
    assert_eq!(uw.get_tdp_max(0, 80), Ok(80));
    assert_eq!(uw.get_tdp_max(3, 80), Err(IoError::InvalidTdpIndex));
    let none = TuxedoIo::new(HardwareInterface::NoneFound, 0);
    assert_eq!(none.get_fan_speed(0, 1), Err(IoError::NoInterface));
}
