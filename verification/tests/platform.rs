use minute_of_silence::platform::{
    audio_device_line, fcc, is_resume_event, list_audio_devices, muted_from_switch, pause_all,
    pause_all_via_xdotool, resume_all, resume_specific, set_mute, AppError, CommandOutcome,
    DeviceListStep, DeviceListing, MediaFallback,
};

#[test]
fn resume_events_are_recognised() {
    assert!(is_resume_event(7));
    assert!(is_resume_event(18));
    assert!(!is_resume_event(4));
    assert!(!is_resume_event(0));
}

#[test]
fn four_character_codes() {
    assert_eq!(fcc(b'd', b'f', b'l', b'o'), 0x6466_6c6f);
    assert_eq!(fcc(b'm', b'u', b't', b'e'), 0x6d75_7465);
    assert_eq!(fcc(0, 0, 0, 1), 1);
}

#[test]
fn mute_switch_values() {
    assert_eq!(set_mute(true), 0);
    assert_eq!(set_mute(false), 1);
    assert!(muted_from_switch(0));
    assert!(!muted_from_switch(1));
}

#[test]
fn media_fallback_to_xdotool() {
    assert!(matches!(pause_all(Ok(())), MediaFallback::Done(Ok(()))));
    assert!(matches!(pause_all(Err(AppError::Platform("x".into()))), MediaFallback::TryXdotool));
    assert!(matches!(resume_all(Err(AppError::Io("y".into()))), MediaFallback::TryXdotool));
    assert!(matches!(resume_all(Ok(())), MediaFallback::Done(Ok(()))));
}

#[test]
fn xdotool_outcomes() {
    assert!(pause_all_via_xdotool(CommandOutcome::Exited { success: true, status: "exit status: 0".into() }).is_ok());
    assert!(pause_all_via_xdotool(CommandOutcome::NotFound).is_ok());
    match pause_all_via_xdotool(CommandOutcome::Exited { success: false, status: "exit status: 1".into() }) {
        Err(AppError::Platform(m)) => assert_eq!(m, "xdotool exited with status exit status: 1"),
        other => panic!("unexpected {:?}", other),
    }
    match pause_all_via_xdotool(CommandOutcome::Failed("denied".into())) {
        Err(AppError::Io(m)) => assert_eq!(m, "denied"),
        other => panic!("unexpected {:?}", other),
    }
}

#[test]
fn device_lines_use_fallbacks_for_unreadable_properties() {
    assert_eq!(
        audio_device_line(Some(1), Some("Speakers (Realtek)".to_string()), Some("{0.0.0}.{abc}".to_string())),
        "FormFactor=1 | Name=Speakers (Realtek) | ID={0.0.0}.{abc}"
    );
    assert_eq!(audio_device_line(None, None, None), "FormFactor=999 | Name=<no name> | ID=<no id>");
    assert_eq!(
        audio_device_line(Some(4294967295), None, Some("x".to_string())),
        "FormFactor=4294967295 | Name=<no name> | ID=x"
    );
    assert_eq!(audio_device_line(Some(0), Some(String::new()), None), "FormFactor=0 | Name= | ID=<no id>");
}

#[test]
fn device_listing_reports() {
    assert_eq!(
        list_audio_devices(DeviceListing::Failed(DeviceListStep::CoCreateInstance)),
        vec!["ERROR: CoCreateInstance failed".to_string()]
    );
    assert_eq!(
        list_audio_devices(DeviceListing::Failed(DeviceListStep::EnumAudioEndpoints)),
        vec!["ERROR: EnumAudioEndpoints failed".to_string()]
    );
    assert_eq!(
        list_audio_devices(DeviceListing::Failed(DeviceListStep::GetCount)),
        vec!["ERROR: GetCount failed".to_string()]
    );
    assert_eq!(
        list_audio_devices(DeviceListing::Listed(Vec::new())),
        vec!["No active render devices found".to_string()]
    );
    let lines = vec!["a".to_string(), "b".to_string()];
    assert_eq!(list_audio_devices(DeviceListing::Listed(lines.clone())), lines);
    assert_eq!(
        list_audio_devices(DeviceListing::Unsupported),
        vec!["Not supported on this platform".to_string()]
    );
}

#[test]
fn play_is_sent_only_for_paused_players_with_a_session() {
    let paused = vec!["__mr__".to_string()];
    assert!(resume_specific(&paused, true));
    assert!(!resume_specific(&paused, false));
    assert!(!resume_specific(&Vec::new(), true));
    assert!(!resume_specific(&Vec::new(), false));
}
