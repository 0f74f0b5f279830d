use openlogi::feature::Hidpp20Error;
use openlogi::onboard_profiles::{
    parse_mode, OnboardMode, OnboardProfilesFeature, ProfilesDescription, FEATURE_ID,
};

#[test]
fn parses_profiles_description() {
    let mut payload = [0u8; 16];
    payload[0] = 0x01; // memory_model_id
    payload[1] = 0x02; // profile_format_id
    payload[2] = 0x03; // macro_format_id
    payload[3] = 5; // profile_count
    payload[4] = 1; // profile_count_oob
    payload[5] = 16; // button_count
    payload[6] = 32; // sector_count
    payload[7] = 0x01; // sector_size hi
    payload[8] = 0x00; // sector_size lo
    payload[9] = 0x07; // mechanical_layout
    payload[10] = 0x09; // various_info
    payload[11] = 0xff; // trailing bytes, ignored
    payload[15] = 0xff;

    let description = ProfilesDescription::from_payload(payload);

    assert_eq!(description.memory_model_id, 0x01);
    assert_eq!(description.profile_format_id, 0x02);
    assert_eq!(description.macro_format_id, 0x03);
    assert_eq!(description.profile_count, 5);
    assert_eq!(description.profile_count_oob, 1);
    assert_eq!(description.button_count, 16);
    assert_eq!(description.sector_count, 32);
    assert_eq!(description.sector_size, 256);
    assert_eq!(description.mechanical_layout, 0x07);
    assert_eq!(description.various_info, 0x09);
}

#[test]
fn rejects_the_write_only_no_change_sentinel_in_a_response() {
    assert!(matches!(
        parse_mode(0),
        Err(Hidpp20Error::UnsupportedResponse)
    ));
}

#[test]
fn parses_onboard_mode() {
    assert!(matches!(parse_mode(1), Ok(OnboardMode::Onboard)));
}

#[test]
fn parses_host_mode() {
    assert!(matches!(parse_mode(2), Ok(OnboardMode::Host)));
}

#[test]
fn rejects_unknown_mode_value() {
    assert!(matches!(
        parse_mode(3),
        Err(Hidpp20Error::UnsupportedResponse)
    ));
    assert!(matches!(
        parse_mode(0xff),
        Err(Hidpp20Error::UnsupportedResponse)
    ));
}

#[test]
fn modes_round_trip_through_their_bytes() {
    assert_eq!(OnboardMode::Onboard.to_byte(), 1);
    assert_eq!(OnboardMode::Host.to_byte(), 2);
    for mode in [OnboardMode::Onboard, OnboardMode::Host] {
        assert_eq!(parse_mode(mode.to_byte()), Ok(mode));
    }
}

#[test]
fn trailing_bytes_do_not_change_the_description() {
    let mut a = [0u8; 16];
    for (at, byte) in a.iter_mut().enumerate() {
        *byte = at as u8;
    }
    let mut b = a;
    b[11..].fill(0xaa);

    assert_eq!(
        ProfilesDescription::from_payload(a),
        ProfilesDescription::from_payload(b)
    );
    assert_eq!(ProfilesDescription::from_payload(a).sector_size, 0x0708);
}

#[test]
fn profile_calls_name_their_functions() {
    let feature = OnboardProfilesFeature::new(2, 14);
    let call = feature.get_description();
    assert_eq!(
        (call.device_index, call.feature_index, call.function, call.args),
        (2, 14, 0, [0, 0, 0])
    );
    assert_eq!(feature.get_mode().function, 2);
    assert_eq!(FEATURE_ID, 0x8100);
}

#[test]
fn profile_replies_are_read() {
    let mut payload = [0u8; 16];
    payload[0] = 2;
    assert_eq!(OnboardProfilesFeature::mode(Ok(payload)), Ok(OnboardMode::Host));
    payload[0] = 0;
    assert_eq!(
        OnboardProfilesFeature::mode(Ok(payload)),
        Err(Hidpp20Error::UnsupportedResponse)
    );
    assert_eq!(
        OnboardProfilesFeature::mode(Err(Hidpp20Error::Call("gone".to_owned()))),
        Err(Hidpp20Error::Call("gone".to_owned()))
    );
    assert_eq!(
        OnboardProfilesFeature::description(Ok(payload)),
        Ok(ProfilesDescription::from_payload(payload))
    );
    assert_eq!(
        OnboardProfilesFeature::description(Err(Hidpp20Error::UnsupportedResponse)),
        Err(Hidpp20Error::UnsupportedResponse)
    );
}
