//! HID++ `OnboardProfiles` (feature `0x8100`), read-only: the profile-memory
//! descriptor and the onboard/host mode.

use vstd::prelude::*;

use super::feature::{
    big_endian, is_bare_call, u16_from_be, FeatureCall, FeatureEndpoint, Hidpp20Error, Reply,
};

verus! {

/// `OnboardProfiles` HID++ feature ID.
pub const FEATURE_ID: u16 = 0x8100;

/// The device's onboard/host mode, as returned by `getMode`.
///
/// `0` ("no change") is a write-only sentinel on `setMode` and never a state
/// a device reports here. A mode's byte is what [`OnboardMode::to_byte`] gives,
/// not the place of its variant.
#[derive(Clone, Copy, Debug, PartialEq, Eq, Structural, Hash)]
pub enum OnboardMode {
    /// The device applies its onboard profile (DPI stages, button bindings,
    /// macros, RGB) without host involvement.
    Onboard,
    /// The device sends only generic button/DPI events; onboard-profile
    /// bindings do not apply.
    Host,
}

impl OnboardMode {
    /// The byte that stands for the mode on the wire.
    pub open spec fn byte(self) -> u8 {
        match self {
            OnboardMode::Onboard => 1,
            OnboardMode::Host => 2,
        }
    }

    /// The byte that stands for the mode on the wire.
    pub fn to_byte(self) -> (byte: u8)
        ensures
            byte == self.byte(),
    {
        match self {
            OnboardMode::Onboard => 1,
            OnboardMode::Host => 2,
        }
    }
}

/// The mode that a byte stands for. A byte of no mode, `0` included, is
/// [`Hidpp20Error::UnsupportedResponse`].
pub fn parse_mode(byte: u8) -> (mode: Result<OnboardMode, Hidpp20Error>)
    ensures
        match mode {
            Ok(mode) => byte == mode.byte(),
            Err(error) => error is UnsupportedResponse && byte != OnboardMode::Onboard.byte()
                && byte != OnboardMode::Host.byte(),
        },
{
    match byte {
        1 => Ok(OnboardMode::Onboard),
        2 => Ok(OnboardMode::Host),
        _ => Err(Hidpp20Error::UnsupportedResponse),
    }
}

/// The `0x8100` descriptor returned by `getDescription`: memory layout and
/// per-device profile geometry, not a profile's contents.
#[derive(Clone, Copy, Debug, PartialEq, Eq, Structural, Hash)]
#[non_exhaustive]
pub struct ProfilesDescription {
    /// Vendor memory-model identifier.
    pub memory_model_id: u8,
    /// Onboard profile blob format version.
    pub profile_format_id: u8,
    /// Macro blob format version.
    pub macro_format_id: u8,
    /// Number of user-writable onboard profiles.
    pub profile_count: u8,
    /// Number of out-of-box (read-only/factory) profiles.
    pub profile_count_oob: u8,
    /// Number of physical buttons the profile format has slots for.
    pub button_count: u8,
    /// Number of addressable memory sectors.
    pub sector_count: u8,
    /// Bytes per memory sector.
    pub sector_size: u16,
    /// Vendor mechanical-layout code.
    pub mechanical_layout: u8,
    /// Vendor-defined additional info byte.
    pub various_info: u8,
}

impl ProfilesDescription {
    /// The description is what the first eleven bytes of `payload` say.
    pub open spec fn describes(self, payload: Seq<u8>) -> bool {
        &&& self.memory_model_id == payload[0]
        &&& self.profile_format_id == payload[1]
        &&& self.macro_format_id == payload[2]
        &&& self.profile_count == payload[3]
        &&& self.profile_count_oob == payload[4]
        &&& self.button_count == payload[5]
        &&& self.sector_count == payload[6]
        &&& self.sector_size == big_endian(payload[7], payload[8])
        &&& self.mechanical_layout == payload[9]
        &&& self.various_info == payload[10]
    }

    /// Decodes a descriptor; what follows the eleventh byte is ignored.
    pub fn from_payload(payload: [u8; 16]) -> (description: Self)
        ensures
            description.describes(payload@),
    {
        ProfilesDescription {
            memory_model_id: payload[0],
            profile_format_id: payload[1],
            macro_format_id: payload[2],
            profile_count: payload[3],
            profile_count_oob: payload[4],
            button_count: payload[5],
            sector_count: payload[6],
            sector_size: u16_from_be(payload[7], payload[8]),
            mechanical_layout: payload[9],
            various_info: payload[10],
        }
    }
}

/// The `OnboardProfiles` / `0x8100` feature of a device.
///
/// Only the read-only diagnostic functions are offered (`getDescription`,
/// `getMode`).
#[derive(Clone, Copy, Debug, PartialEq, Eq)]
pub struct OnboardProfilesFeature {
    pub endpoint: FeatureEndpoint,
}

impl OnboardProfilesFeature {
    /// The feature at an address.
    pub fn new(device_index: u8, feature_index: u8) -> (feature: Self)
        ensures
            feature.endpoint == (FeatureEndpoint { device_index, feature_index }),
    {
        OnboardProfilesFeature { endpoint: FeatureEndpoint { device_index, feature_index } }
    }

    /// Asks for the profile-memory descriptor (`getDescription`, function 0).
    pub fn get_description(&self) -> (call: FeatureCall)
        ensures
            is_bare_call(call, self.endpoint, 0),
    {
        self.endpoint.bare_call(0)
    }

    /// The descriptor in the reply to [`Self::get_description`].
    pub fn description(reply: Reply) -> (description: Result<ProfilesDescription, Hidpp20Error>)
        ensures
            match reply {
                Ok(payload) => description matches Ok(description) && description.describes(
                    payload@,
                ),
                Err(error) => description == Err::<ProfilesDescription, Hidpp20Error>(error),
            },
    {
        match reply {
            Ok(payload) => Ok(ProfilesDescription::from_payload(payload)),
            Err(error) => Err(error),
        }
    }

    /// Asks for the device's current onboard/host mode (`getMode`, function 2).
    pub fn get_mode(&self) -> (call: FeatureCall)
        ensures
            is_bare_call(call, self.endpoint, 2),
    {
        self.endpoint.bare_call(2)
    }

    /// The mode in the reply to [`Self::get_mode`].
    pub fn mode(reply: Reply) -> (mode: Result<OnboardMode, Hidpp20Error>)
        ensures
            match reply {
                Ok(payload) => match mode {
                    Ok(mode) => payload@[0] == mode.byte(),
                    Err(error) => error is UnsupportedResponse && payload@[0]
                        != OnboardMode::Onboard.byte() && payload@[0] != OnboardMode::Host.byte(),
                },
                Err(error) => mode == Err::<OnboardMode, Hidpp20Error>(error),
            },
    {
        match reply {
            Ok(payload) => parse_mode(payload[0]),
            Err(error) => Err(error),
        }
    }
}

/// A payload has one description: the bytes that are read determine every
/// field, and the bytes that follow none.
pub proof fn law_description_depends_on_eleven_bytes(
    a: ProfilesDescription,
    b: ProfilesDescription,
    x: Seq<u8>,
    y: Seq<u8>,
)
    requires
        a.describes(x),
        b.describes(y),
        forall|i: int| 0 <= i < 11 ==> #[trigger] x[i] == y[i],
    ensures
        a == b,
{
    assert(x[0] == y[0] && x[1] == y[1] && x[2] == y[2] && x[3] == y[3] && x[4] == y[4]);
    assert(x[5] == y[5] && x[6] == y[6] && x[7] == y[7] && x[8] == y[8] && x[9] == y[9]);
    assert(x[10] == y[10]);
}

/// Different modes have different bytes, so a byte names at most one mode.
pub proof fn law_mode_bytes_are_distinct(a: OnboardMode, b: OnboardMode)
    ensures
        a.byte() == b.byte() <==> a == b,
        a.byte() != 0,
{
}

/// The eleven bytes that a description was decoded from, in wire order.
pub open spec fn wire_bytes(description: ProfilesDescription) -> Seq<u8> {
    seq![
        description.memory_model_id,
        description.profile_format_id,
        description.macro_format_id,
        description.profile_count,
        description.profile_count_oob,
        description.button_count,
        description.sector_count,
        (description.sector_size / 256) as u8,
        (description.sector_size % 256) as u8,
        description.mechanical_layout,
        description.various_info,
    ]
}

/// Nothing of the descriptor is lost or moved: the fields of a decoded
/// description, written back in wire order, are the first eleven bytes of its
/// payload. So is what the reply to a description call is decoded to.
pub proof fn law_description_writes_back_to_its_payload(
    payload: [u8; 16],
    description: ProfilesDescription,
    reply: Reply,
    read: Result<ProfilesDescription, Hidpp20Error>,
)
    requires
        call_ensures(ProfilesDescription::from_payload, (payload,), description),
        call_ensures(OnboardProfilesFeature::description, (reply,), read),
    ensures
        call_requires(ProfilesDescription::from_payload, (payload,)),
        wire_bytes(description) == payload@.take(11),
        reply matches Ok(bytes) ==> (read matches Ok(found) && wire_bytes(found) == bytes@.take(
            11,
        )),
        reply matches Err(error) ==> read == Err::<ProfilesDescription, Hidpp20Error>(error),
{
    assert(wire_bytes(description) =~= payload@.take(11));
    if let Ok(bytes) = reply {
        assert(wire_bytes(read->Ok_0) =~= bytes@.take(11));
    }
}

/// Two payloads have the same description exactly if their first eleven bytes
/// agree.
pub proof fn law_equal_descriptions_have_equal_bytes(
    x: [u8; 16],
    y: [u8; 16],
    a: ProfilesDescription,
    b: ProfilesDescription,
)
    requires
        call_ensures(ProfilesDescription::from_payload, (x,), a),
        call_ensures(ProfilesDescription::from_payload, (y,), b),
    ensures
        a == b <==> x@.take(11) == y@.take(11),
{
    assert(wire_bytes(a) =~= x@.take(11));
    assert(wire_bytes(b) =~= y@.take(11));
    if x@.take(11) == y@.take(11) {
        assert forall|i: int| 0 <= i < 11 implies #[trigger] x@[i] == y@[i] by {
            assert(x@.take(11)[i] == y@.take(11)[i]);
        }
        law_description_depends_on_eleven_bytes(a, b, x@, y@);
    }
}

/// A changed byte shows in its own field and in no other: the descriptions of
/// two payloads, written back, differ at most where the payloads do, and there
/// they do.
pub proof fn law_each_byte_has_its_field(
    x: [u8; 16],
    y: [u8; 16],
    a: ProfilesDescription,
    b: ProfilesDescription,
    at: int,
)
    requires
        call_ensures(ProfilesDescription::from_payload, (x,), a),
        call_ensures(ProfilesDescription::from_payload, (y,), b),
        0 <= at < 11,
    ensures
        wire_bytes(a)[at] == wire_bytes(b)[at] <==> x@[at] == y@[at],
        at == 0 ==> (a.memory_model_id == b.memory_model_id <==> x@[0] == y@[0]),
        at == 1 ==> (a.profile_format_id == b.profile_format_id <==> x@[1] == y@[1]),
        at == 2 ==> (a.macro_format_id == b.macro_format_id <==> x@[2] == y@[2]),
        at == 3 ==> (a.profile_count == b.profile_count <==> x@[3] == y@[3]),
        at == 4 ==> (a.profile_count_oob == b.profile_count_oob <==> x@[4] == y@[4]),
        at == 5 ==> (a.button_count == b.button_count <==> x@[5] == y@[5]),
        at == 6 ==> (a.sector_count == b.sector_count <==> x@[6] == y@[6]),
        at == 7 ==> (a.sector_size / 256 == b.sector_size / 256 <==> x@[7] == y@[7]),
        at == 8 ==> (a.sector_size % 256 == b.sector_size % 256 <==> x@[8] == y@[8]),
        at == 9 ==> (a.mechanical_layout == b.mechanical_layout <==> x@[9] == y@[9]),
        at == 10 ==> (a.various_info == b.various_info <==> x@[10] == y@[10]),
{
    assert(wire_bytes(a) =~= x@.take(11));
    assert(wire_bytes(b) =~= y@.take(11));
    assert(x@.take(11)[at] == x@[at] && y@.take(11)[at] == y@[at]);
}

/// A mode's byte reads back as the mode, and a byte reads as a mode exactly if
/// it is 1, which is onboard, or 2, which is host; any other is an unsupported
/// response. A reply's mode is in its first byte.
pub proof fn law_mode_byte_reads_back(
    mode: OnboardMode,
    written: u8,
    byte: u8,
    parsed: Result<OnboardMode, Hidpp20Error>,
    reply: Reply,
    read: Result<OnboardMode, Hidpp20Error>,
)
    requires
        call_ensures(OnboardMode::to_byte, (mode,), written),
        call_ensures(parse_mode, (byte,), parsed),
        call_ensures(OnboardProfilesFeature::mode, (reply,), read),
    ensures
        byte == written ==> parsed == Ok::<OnboardMode, Hidpp20Error>(mode),
        parsed == Ok::<OnboardMode, Hidpp20Error>(mode) ==> byte == written,
        byte == 1 <==> parsed == Ok::<OnboardMode, Hidpp20Error>(OnboardMode::Onboard),
        byte == 2 <==> parsed == Ok::<OnboardMode, Hidpp20Error>(OnboardMode::Host),
        byte < 1 || byte > 2 ==> parsed == Err::<OnboardMode, Hidpp20Error>(
            Hidpp20Error::UnsupportedResponse,
        ),
        reply matches Ok(payload) ==> (payload@[0] == byte ==> read == parsed),
        reply matches Err(error) ==> read == Err::<OnboardMode, Hidpp20Error>(error),
{
}

/// The feature's calls go to the address that it was made with: the
/// descriptor is function 0 and the mode function 2, both without arguments.
pub proof fn law_profile_calls_go_to_the_feature(
    device_index: u8,
    feature_index: u8,
    feature: OnboardProfilesFeature,
    description: FeatureCall,
    mode: FeatureCall,
)
    requires
        call_ensures(OnboardProfilesFeature::new, (device_index, feature_index), feature),
        call_ensures(OnboardProfilesFeature::get_description, (&feature,), description),
        call_ensures(OnboardProfilesFeature::get_mode, (&feature,), mode),
    ensures
        description.device_index == device_index && mode.device_index == device_index,
        description.feature_index == feature_index && mode.feature_index == feature_index,
        description.function == 0 && mode.function == 2,
        forall|i: int| 0 <= i < 3 ==> #[trigger] description.args@[i] == 0,
        forall|i: int| 0 <= i < 3 ==> #[trigger] mode.args@[i] == 0,
{
}

} // verus!
