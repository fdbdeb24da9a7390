//! The operations the control surface performs against the core: read the
//! registry, toggle power, set color, rename a device. Each write updates
//! the addressed entry and enqueues the matching command for the
//! multiplexer's next cycle; the HTTP plumbing around these calls lives
//! with the caller.

use vstd::prelude::*;
use vstd::utf8::is_ascii_chars;
use crate::channel::{CommandChannel, SendError};
use crate::codec::zero_bytes;
use crate::envelope::{wrapping_next, RequestOptions, Sequencer};
use crate::message::{Command, CommandModel, Request};
use crate::onboard::spec_pad_nulls;
use crate::registry::Registry;

verus! {

/// Selects the device a power toggle addresses.
pub struct PowerRequest {
    pub ip: String,
}

/// The device and the four color-channel values a color change carries.
pub struct ColorRequest {
    pub ip: String,
    pub hue: u16,
    pub saturation: u16,
    pub brightness: u16,
    pub kelvin: u16,
}

/// The credentials a device-onboarding call carries.
pub struct OnboardingRequest {
    pub ssid: String,
    pub password: String,
}

/// The device and the name a rename carries.
pub struct NameRequest {
    pub ip: String,
    pub name: String,
}

/// The envelope an operator command travels under: tagged, from source
/// zero, response required, no acknowledgment, with the given correlation
/// sequence number.
pub open spec fn is_operator_envelope(o: RequestOptions, sequence: u8) -> bool {
    o.tagged == true && o.source == 0 && o.target@ == zero_bytes(8) && o.ack_required == false
        && o.res_required == true && o.sequence == sequence
}

fn operator_options(sequence: u8) -> (o: RequestOptions)
    ensures
        is_operator_envelope(o, sequence),
{
    let o = RequestOptions {
        tagged: true,
        source: 0,
        target: [0u8; 8],
        ack_required: false,
        res_required: true,
        sequence,
    };
    proof {
        assert(o.target@ =~= zero_bytes(8));
    }
    o
}

/// The power level a toggle drives a device to: off when the last-known
/// level is already full intensity, full intensity otherwise.
pub open spec fn spec_toggled_power(prev: Option<u16>) -> u16 {
    if prev == Some(65535u16) {
        0u16
    } else {
        65535u16
    }
}

/// Toggles the addressed device's power: the registry entry's power field
/// is set to the toggled level, and one set-power command carrying that
/// level, stamped with the caller's next sequence number, is enqueued to
/// the device. The device must already be known; the control path never
/// fabricates an entry.
pub fn handle_power_toggle(
    reg: &mut Registry,
    chan: &mut CommandChannel,
    seq: &mut Sequencer,
    req: &PowerRequest,
) -> (r: Result<(), SendError>)
    requires
        old(reg).wf(),
        old(reg)@.contains_key(req.ip@),
    ensures
        final(reg).wf(),
        final(reg)@ == old(reg)@.insert(
            req.ip@,
            old(reg)@[req.ip@].with_power(spec_toggled_power(old(reg)@[req.ip@].power)),
        ),
        final(seq).last == wrapping_next(old(seq).last),
        final(chan).is_closed() == old(chan).is_closed(),
        old(chan).is_closed() ==> r is Err && final(chan)@ == old(chan)@,
        !old(chan).is_closed() ==> r is Ok && final(chan)@ == old(chan)@.push(
            final(chan)@.last(),
        ) && final(chan)@.last().target@ == req.ip@ && final(chan)@.last().message@ == (
        CommandModel::SetPower { level: spec_toggled_power(old(reg)@[req.ip@].power) })
            && is_operator_envelope(final(chan)@.last().options, old(seq).last),
{
    let new_power: u16 = match reg.get(&req.ip) {
        Some(light) => {
            match light.power {
                Some(p) => if p == 65535 {
                    0
                } else {
                    65535
                },
                None => 65535,
            }
        },
        None => 65535,
    };
    reg.set_power(&req.ip, new_power);
    let sequence = seq.next();
    let request = Request {
        options: operator_options(sequence),
        message: Command::SetPower { level: new_power },
        target: req.ip.clone(),
    };
    chan.send(request)
}

/// Sets the addressed device's color: the entry's four color channels are
/// replaced, and one set-color command carrying them, over the fixed
/// transition duration, is enqueued to the device.
pub fn handle_set_color(
    reg: &mut Registry,
    chan: &mut CommandChannel,
    seq: &mut Sequencer,
    req: &ColorRequest,
) -> (r: Result<(), SendError>)
    requires
        old(reg).wf(),
        old(reg)@.contains_key(req.ip@),
    ensures
        final(reg).wf(),
        final(reg)@ == old(reg)@.insert(
            req.ip@,
            old(reg)@[req.ip@].with_color(req.hue, req.saturation, req.brightness, req.kelvin),
        ),
        final(seq).last == wrapping_next(old(seq).last),
        final(chan).is_closed() == old(chan).is_closed(),
        old(chan).is_closed() ==> r is Err && final(chan)@ == old(chan)@,
        !old(chan).is_closed() ==> r is Ok && final(chan)@ == old(chan)@.push(
            final(chan)@.last(),
        ) && final(chan)@.last().target@ == req.ip@ && final(chan)@.last().message@ == (
        CommandModel::SetColor {
            reserved: 1,
            hue: req.hue,
            saturation: req.saturation,
            brightness: req.brightness,
            kelvin: req.kelvin,
            duration_ms: 450,
        }) && is_operator_envelope(final(chan)@.last().options, old(seq).last),
{
    reg.set_color(&req.ip, req.hue, req.saturation, req.brightness, req.kelvin);
    let sequence = seq.next();
    let request = Request {
        options: operator_options(sequence),
        message: Command::SetColor {
            reserved: 1,
            hue: req.hue,
            saturation: req.saturation,
            brightness: req.brightness,
            kelvin: req.kelvin,
            duration_ms: 450,
        },
        target: req.ip.clone(),
    };
    chan.send(request)
}

/// Renames the addressed device: the entry's label is set to the new name
/// as given, and one set-label command carrying the name null-padded to
/// the fixed wire width is enqueued to the device. The name must fit the
/// wire width.
pub fn handle_set_name(
    reg: &mut Registry,
    chan: &mut CommandChannel,
    seq: &mut Sequencer,
    req: &NameRequest,
) -> (r: Result<(), SendError>)
    requires
        old(reg).wf(),
        old(reg)@.contains_key(req.ip@),
        req.name@.len() <= 32,
        is_ascii_chars(req.name@),
    ensures
        final(reg).wf(),
        final(reg)@ == old(reg)@.insert(req.ip@, old(reg)@[req.ip@].with_label(req.name@)),
        final(seq).last == wrapping_next(old(seq).last),
        final(chan).is_closed() == old(chan).is_closed(),
        old(chan).is_closed() ==> r is Err && final(chan)@ == old(chan)@,
        !old(chan).is_closed() ==> r is Ok && final(chan)@ == old(chan)@.push(
            final(chan)@.last(),
        ) && final(chan)@.last().target@ == req.ip@ && final(chan)@.last().message@ == (
        CommandModel::SetLabel { label: spec_pad_nulls(req.name@, 32) }) && is_operator_envelope(
            final(chan)@.last().options,
            old(seq).last,
        ),
{
    reg.set_label(&req.ip, req.name.clone());
    let sequence = seq.next();
    let padded = crate::onboard::pad_with_nulls(req.name.as_str(), 32);
    let request = Request {
        options: operator_options(sequence),
        message: Command::SetLabel { label: padded },
        target: req.ip.clone(),
    };
    chan.send(request)
}

} // verus!
