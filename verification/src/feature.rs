//! Calls to HID++ 2.0 features.

use vstd::prelude::*;

verus! {

/// Why a feature call gave no value.
#[derive(Debug, PartialEq, Eq)]
pub enum Hidpp20Error {
    /// The device answered with a value the feature does not define.
    UnsupportedResponse,
    /// The call itself failed; the text is the channel's own message.
    Call(String),
}

/// The payload of a device's reply, extended to the long report's size.
pub type Reply = Result<[u8; 16], Hidpp20Error>;

/// A call of one function of one feature of one device.
#[derive(Clone, Copy, Debug, PartialEq, Eq)]
pub struct FeatureCall {
    pub device_index: u8,
    pub feature_index: u8,
    pub function: u8,
    pub args: [u8; 3],
}

/// A feature of a device, as it is addressed on the channel.
#[derive(Clone, Copy, Debug, PartialEq, Eq)]
pub struct FeatureEndpoint {
    pub device_index: u8,
    pub feature_index: u8,
}

impl FeatureEndpoint {
    /// The call of `function` with zero arguments.
    pub fn bare_call(&self, function: u8) -> (call: FeatureCall)
        ensures
            is_bare_call(call, *self, function),
    {
        let call = self.call(function, [0, 0, 0]);
        assert(call.args@ =~= seq![0u8, 0u8, 0u8]);
        call
    }

    /// The call of `function` at this endpoint.
    pub fn call(&self, function: u8, args: [u8; 3]) -> (call: FeatureCall)
        ensures
            call == (FeatureCall {
                device_index: self.device_index,
                feature_index: self.feature_index,
                function,
                args,
            }),
    {
        FeatureCall {
            device_index: self.device_index,
            feature_index: self.feature_index,
            function,
            args,
        }
    }
}

/// The call is one of `function` at `endpoint`, with no arguments to speak of.
pub open spec fn is_bare_call(call: FeatureCall, endpoint: FeatureEndpoint, function: u8) -> bool {
    &&& call.device_index == endpoint.device_index
    &&& call.feature_index == endpoint.feature_index
    &&& call.function == function
    &&& call.args@ == seq![0u8, 0u8, 0u8]
}

/// The outcome of a call whose reply carries nothing: the device's
/// acknowledgement or the failure.
pub fn acknowledged(reply: Reply) -> (result: Result<(), Hidpp20Error>)
    ensures
        result == match reply {
            Ok(_) => Ok::<(), Hidpp20Error>(()),
            Err(error) => Err(error),
        },
{
    match reply {
        Ok(_) => Ok(()),
        Err(error) => Err(error),
    }
}

/// The number that two bytes stand for, the more significant one first.
pub open spec fn big_endian(high: u8, low: u8) -> int {
    high * 256 + low
}

/// Reads a number off the wire.
pub fn u16_from_be(high: u8, low: u8) -> (value: u16)
    ensures
        value == big_endian(high, low),
{
    high as u16 * 256 + low as u16
}

/// Every 16-bit number has exactly one pair of bytes that stands for it.
pub proof fn law_big_endian_is_one_to_one(value: u16, high: u8, low: u8)
    ensures
        big_endian(high, low) == value <==> high == value / 256 && low == value % 256,
{
}

/// The two bytes of a number read off the wire are its high and low part.
pub proof fn law_wire_number_keeps_its_bytes(high: u8, low: u8, value: u16)
    requires
        call_ensures(u16_from_be, (high, low), value),
    ensures
        value / 256 == high,
        value % 256 == low,
{
}

/// A call goes to the device and feature of its endpoint and carries the
/// function and the arguments that it was made with; a bare one carries zeros.
pub proof fn law_call_names_its_endpoint(
    endpoint: FeatureEndpoint,
    function: u8,
    args: [u8; 3],
    call: FeatureCall,
    bare: FeatureCall,
)
    requires
        call_ensures(FeatureEndpoint::call, (&endpoint, function, args), call),
        call_ensures(FeatureEndpoint::bare_call, (&endpoint, function), bare),
    ensures
        (FeatureEndpoint { device_index: call.device_index, feature_index: call.feature_index })
            == endpoint,
        (FeatureEndpoint { device_index: bare.device_index, feature_index: bare.feature_index })
            == endpoint,
        call.function == function,
        bare.function == function,
        call.args == args,
        forall|i: int| 0 <= i < 3 ==> #[trigger] bare.args@[i] == 0,
{
}

/// A call is acknowledged exactly if the device replied, whatever the reply
/// holds; a failure is handed on as it came.
pub proof fn law_any_reply_acknowledges(reply: Reply, result: Result<(), Hidpp20Error>)
    requires
        call_ensures(acknowledged, (reply,), result),
    ensures
        reply is Ok ==> result == Ok::<(), Hidpp20Error>(()),
        reply matches Err(error) ==> result == Err::<(), Hidpp20Error>(error),
{
}

} // verus!
