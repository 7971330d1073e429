//! The device's queries and capture commands, and what their replies decode
//! to.
//!
//! A query reply carries a fixed list of tagged field lines; the values of
//! those fields are read here as text, as decimal numbers, or as a packed
//! timestamp.
use crate::codec::{decimal_value, decode6, decode6_spec, decode_decimal_field, is_decimal_u32};
use crate::command::{ok_status, two_bytes};
use crate::exchange::{initial, Body, Exchange, Phase};
use vstd::prelude::*;
use vstd::slice::slice_to_vec;

verus! {

/// What the device says of its maker, product, firmware and protocol.
#[derive(Debug, PartialEq, Eq)]
pub struct VersionInfo {
    pub vendor_info: Vec<u8>,
    pub product_info: Vec<u8>,
    pub firmware_version: Vec<u8>,
    pub protocol_version: Vec<u8>,
    pub serial_number: Vec<u8>,
}

/// The device's fixed parameters. The angular resolution in degrees is
/// `360 / angular_area`.
#[derive(Debug, PartialEq, Eq)]
pub struct SensorParams {
    pub sensor_model: Vec<u8>,
    pub min_distance_mm: u32,
    pub max_distance_mm: u32,
    pub angular_area: u32,
    pub start_step: u32,
    pub end_step: u32,
    pub front_dir_step: u32,
    pub std_scan_speed_rpm: u32,
}

/// The device's current state.
#[derive(Debug, PartialEq, Eq)]
pub struct StatusInfo {
    pub sensor_model: Vec<u8>,
    pub laser_status: Vec<u8>,
    pub scanning_speed_rpm: u32,
    pub measurement_mode: Vec<u8>,
    pub communication_speed: Vec<u8>,
    pub time_stamp: u32,
    pub sensor_status: Vec<u8>,
}

/// The shape of a version reply: five text fields.
pub open spec fn version_body() -> Body {
    Body::Fields { count: 5, decimal_from: 0, decimal_to: 0 }
}

/// The shape of a parameter reply: the model, then seven decimal numbers.
pub open spec fn params_body() -> Body {
    Body::Fields { count: 8, decimal_from: 1, decimal_to: 8 }
}

/// The shape of a status reply: seven fields, of which the third is a
/// decimal number.
pub open spec fn status_body() -> Body {
    Body::Fields { count: 7, decimal_from: 2, decimal_to: 3 }
}

/// The shape of a version reply.
pub fn version_shape() -> (r: Body)
    ensures
        r == version_body(),
{
    Body::Fields { count: 5, decimal_from: 0, decimal_to: 0 }
}

/// The shape of a parameter reply.
pub fn params_shape() -> (r: Body)
    ensures
        r == params_body(),
{
    Body::Fields { count: 8, decimal_from: 1, decimal_to: 8 }
}

/// The shape of a status reply.
pub fn status_shape() -> (r: Body)
    ensures
        r == status_body(),
{
    Body::Fields { count: 7, decimal_from: 2, decimal_to: 3 }
}

/// `VV`, status `00`, five text fields.
pub fn version_exchange() -> (r: Exchange)
    ensures
        r@ == initial(seq![0x56u8, 0x56u8], ok_status(), true, version_body()),
{
    Exchange::send(two_bytes(0x56, 0x56), two_bytes(0x30, 0x30), version_shape())
}

/// `PP`, status `00`, the model and seven decimal numbers.
pub fn sensor_params_exchange() -> (r: Exchange)
    ensures
        r@ == initial(seq![0x50u8, 0x50u8], ok_status(), true, params_body()),
{
    Exchange::send(two_bytes(0x50, 0x50), two_bytes(0x30, 0x30), params_shape())
}

/// `II`, status `00`, seven fields, the third a decimal number.
pub fn status_exchange() -> (r: Exchange)
    ensures
        r@ == initial(seq![0x49u8, 0x49u8], ok_status(), true, status_body()),
{
    Exchange::send(two_bytes(0x49, 0x49), two_bytes(0x30, 0x30), status_shape())
}

/// Whether the device is capturing.
#[derive(Clone, Copy, Debug, PartialEq, Eq, Structural)]
pub enum CaptureState {
    Idle,
    Capturing,
}

/// A command that changes the capture state.
#[derive(Clone, Copy, Debug, PartialEq, Eq, Structural)]
pub enum CaptureCommand {
    /// `BM`: start capturing.
    Start,
    /// `QT`: stop capturing.
    Stop,
}

/// The capture state after `command` was sent in state `state`: an
/// acknowledged start leads to `Capturing`, an acknowledged stop to `Idle`,
/// and a command that was not acknowledged changes nothing.
pub open spec fn capture_after(
    state: CaptureState,
    command: CaptureCommand,
    acknowledged: bool,
) -> CaptureState {
    if !acknowledged {
        state
    } else {
        match command {
            CaptureCommand::Start => CaptureState::Capturing,
            CaptureCommand::Stop => CaptureState::Idle,
        }
    }
}

impl CaptureState {
    /// The state after `command`, acknowledged or not.
    pub fn after(self, command: CaptureCommand, acknowledged: bool) -> (r: CaptureState)
        ensures
            r == capture_after(self, command, acknowledged),
    {
        if !acknowledged {
            self
        } else {
            match command {
                CaptureCommand::Start => CaptureState::Capturing,
                CaptureCommand::Stop => CaptureState::Idle,
            }
        }
    }
}

/// `BM`, status `00`: start capturing.
pub fn start_capture_exchange() -> (r: Exchange)
    ensures
        r@ == initial(seq![0x42u8, 0x4Du8], ok_status(), true, Body::Block),
{
    Exchange::send(two_bytes(0x42, 0x4D), two_bytes(0x30, 0x30), Body::Block)
}

/// `QT`, status `00`: stop capturing.
pub fn stop_capture_exchange() -> (r: Exchange)
    ensures
        r@ == initial(seq![0x51u8, 0x54u8], ok_status(), true, Body::Block),
{
    Exchange::send(two_bytes(0x51, 0x54), two_bytes(0x30, 0x30), Body::Block)
}

/// `RB`, status `01`: the first half of a reboot.
pub fn reboot_request_exchange() -> (r: Exchange)
    ensures
        r@ == initial(seq![0x52u8, 0x42u8], seq![0x30u8, 0x31u8], true, Body::Block),
{
    Exchange::send(two_bytes(0x52, 0x42), two_bytes(0x30, 0x31), Body::Block)
}

/// `RB`, status `00`: the second half of a reboot.
pub fn reboot_confirm_exchange() -> (r: Exchange)
    ensures
        r@ == initial(seq![0x52u8, 0x42u8], ok_status(), true, Body::Block),
{
    Exchange::send(two_bytes(0x52, 0x42), two_bytes(0x30, 0x30), Body::Block)
}

/// A completed reply of the given shape.
pub open spec fn is_reply_with(reply: crate::exchange::ExchangeView, body: Body) -> bool {
    reply.phase == Phase::Done && reply.body == body
}

fn field_at(reply: &Exchange, i: usize) -> (r: Vec<u8>)
    requires
        i < reply@.fields.len(),
    ensures
        r@ == reply@.fields[i as int],
{
    let fields = reply.fields();
    slice_to_vec(fields[i].as_slice())
}

fn number_at(reply: &Exchange, i: usize) -> (r: u32)
    requires
        i < reply@.fields.len(),
        is_decimal_u32(reply@.fields[i as int]),
    ensures
        r as nat == decimal_value(reply@.fields[i as int]),
{
    let fields = reply.fields();
    match decode_decimal_field(fields[i].as_slice()) {
        Ok(v) => v,
        Err(_) => 0,
    }
}

impl VersionInfo {
    /// Reads a completed version reply.
    pub fn from_reply(reply: &Exchange) -> (r: VersionInfo)
        requires
            is_reply_with(reply@, version_body()),
        ensures
            r.vendor_info@ == reply@.fields[0],
            r.product_info@ == reply@.fields[1],
            r.firmware_version@ == reply@.fields[2],
            r.protocol_version@ == reply@.fields[3],
            r.serial_number@ == reply@.fields[4],
    {
        // The reply's invariant: a completed reply holds all its fields.
        let _ = reply.fields();
        VersionInfo {
            vendor_info: field_at(reply, 0),
            product_info: field_at(reply, 1),
            firmware_version: field_at(reply, 2),
            protocol_version: field_at(reply, 3),
            serial_number: field_at(reply, 4),
        }
    }
}

impl SensorParams {
    /// Reads a completed parameter reply: the model, then seven decimal
    /// numbers, which the exchange has already checked.
    pub fn from_reply(reply: &Exchange) -> (r: SensorParams)
        requires
            is_reply_with(reply@, params_body()),
        ensures
            r.sensor_model@ == reply@.fields[0],
            r.min_distance_mm as nat == decimal_value(reply@.fields[1]),
            r.max_distance_mm as nat == decimal_value(reply@.fields[2]),
            r.angular_area as nat == decimal_value(reply@.fields[3]),
            r.start_step as nat == decimal_value(reply@.fields[4]),
            r.end_step as nat == decimal_value(reply@.fields[5]),
            r.front_dir_step as nat == decimal_value(reply@.fields[6]),
            r.std_scan_speed_rpm as nat == decimal_value(reply@.fields[7]),
    {
        // The reply's invariant: a completed reply holds all its fields, and
        // its decimal fields are decimal numerals of 32 bits.
        let _ = reply.fields();
        SensorParams {
            sensor_model: field_at(reply, 0),
            min_distance_mm: number_at(reply, 1),
            max_distance_mm: number_at(reply, 2),
            angular_area: number_at(reply, 3),
            start_step: number_at(reply, 4),
            end_step: number_at(reply, 5),
            front_dir_step: number_at(reply, 6),
            std_scan_speed_rpm: number_at(reply, 7),
        }
    }
}

impl StatusInfo {
    /// Reads a completed status reply. The third field is a decimal number,
    /// which the exchange has already checked; the sixth is a packed
    /// timestamp.
    pub fn from_reply(reply: &Exchange) -> (r: StatusInfo)
        requires
            is_reply_with(reply@, status_body()),
        ensures
            r.sensor_model@ == reply@.fields[0],
            r.laser_status@ == reply@.fields[1],
            r.scanning_speed_rpm as nat == decimal_value(reply@.fields[2]),
            r.measurement_mode@ == reply@.fields[3],
            r.communication_speed@ == reply@.fields[4],
            r.time_stamp as nat == decode6_spec(reply@.fields[5]),
            r.sensor_status@ == reply@.fields[6],
    {
        // The reply's invariant, as above.
        let fields = reply.fields();
        let time_stamp = decode6(fields[5].as_slice());
        StatusInfo {
            sensor_model: field_at(reply, 0),
            laser_status: field_at(reply, 1),
            scanning_speed_rpm: number_at(reply, 2),
            measurement_mode: field_at(reply, 3),
            communication_speed: field_at(reply, 4),
            time_stamp,
            sensor_status: field_at(reply, 6),
        }
    }
}

} // verus!
