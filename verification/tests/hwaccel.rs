use braidpipe::hwaccel::{
    enabled_from, hw_decoders, hw_encoders, preferred_h264_encoder, promote_hardware_decoders,
    promoted_names, HwMode, Platform, Promotion,
};

#[test]
fn hardware_is_on_by_default_and_off_only_on_request() {
    assert!(enabled_from(None));
    assert!(enabled_from(Some("auto")));
    assert!(enabled_from(Some("1")));
    assert!(!enabled_from(Some("off")));
    assert!(!enabled_from(Some("0")));
    assert!(!enabled_from(Some("false")));
    assert!(!enabled_from(Some("no")));
}

#[test]
fn the_command_line_wins_and_is_heard_once() {
    let mut mode = HwMode::new();
    assert!(!mode.enabled(Some("off")));
    mode.set_enabled(true);
    mode.set_enabled(false);
    assert!(mode.enabled(Some("off")));
}

#[test]
fn ranks_are_only_raised_and_earlier_decoders_rank_higher() {
    let ranks = vec![Some(0), None, Some(256), Some(400), Some(317)];
    let plan = promote_hardware_decoders(true, 256, &ranks);
    assert_eq!(
        plan,
        vec![
            Promotion::Raise(320),
            Promotion::Absent,
            Promotion::Raise(318),
            Promotion::Keep,
            Promotion::Keep,
        ]
    );
    let names = vec!["a", "b", "c", "d", "e"];
    assert_eq!(promoted_names(&names, &plan), vec!["a", "c", "d", "e"]);
    assert!(promote_hardware_decoders(false, 256, &ranks).is_empty());
    assert_eq!(promote_hardware_decoders(true, 256, &vec![Some(319)]), vec![Promotion::Raise(320)]);
    assert_eq!(promote_hardware_decoders(true, 256, &vec![Some(320)]), vec![Promotion::Keep]);
}

#[test]
fn the_first_available_encoder_is_preferred() {
    let none = vec![false; 4];
    assert_eq!(preferred_h264_encoder(true, Platform::Linux, &none), None);
    let some = vec![false, true, true, false];
    assert_eq!(preferred_h264_encoder(true, Platform::Linux, &some), Some("vah264enc"));
    assert_eq!(preferred_h264_encoder(true, Platform::Windows, &some), Some("qsvh264enc"));
    assert_eq!(preferred_h264_encoder(false, Platform::Linux, &some), None);
    assert_eq!(preferred_h264_encoder(true, Platform::MacOs, &vec![true]), Some("vtenc_h264"));
    assert_eq!(preferred_h264_encoder(true, Platform::Other, &vec![true]), None);
}

#[test]
fn the_lists_are_in_preference_order() {
    assert_eq!(hw_decoders(Platform::MacOs), vec!["vtdec_hw", "vtdec"]);
    assert_eq!(hw_decoders(Platform::Linux).len(), 13);
    assert_eq!(hw_decoders(Platform::Linux)[0], "nvh264dec");
    assert_eq!(hw_decoders(Platform::Linux)[7], "vaav1dec");
    assert_eq!(hw_decoders(Platform::Linux)[8], "vaapih264dec");
    assert_eq!(hw_decoders(Platform::Linux)[10], "qsvh264dec");
    assert_eq!(hw_decoders(Platform::Windows).len(), 12);
    assert_eq!(hw_decoders(Platform::Windows)[0], "d3d12h264dec");
    assert!(hw_decoders(Platform::Other).is_empty());
    assert_eq!(
        hw_encoders(Platform::Linux),
        vec!["nvh264enc", "vah264enc", "qsvh264enc", "vaapih264enc"]
    );
    assert_eq!(
        hw_encoders(Platform::Windows),
        vec!["nvh264enc", "qsvh264enc", "amfh264enc", "mfh264enc"]
    );
}
