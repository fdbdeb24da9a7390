//! The socket multiplexer's decision core.
//!
//! The multiplexer owns the one datagram socket and alternates, once per
//! polling cycle, between an inbound phase — decode every currently
//! available datagram and merge each report into the registry — and an
//! outbound phase — drain the command channel for sending. The socket,
//! the timer and the shutdown flag live with the caller; what is decided
//! per cycle is all here: how a datagram changes the registry, that a
//! malformed datagram changes nothing and stops nothing, and that a cycle
//! begun after shutdown neither writes the registry nor emits a command.

use vstd::prelude::*;
use crate::channel::CommandChannel;
use crate::codec::{decode_report, spec_decode, DecodeError};
use crate::light::LightModel;
use crate::message::{Report, ReportModel, Request};
use crate::registry::{state_of, Registry};

verus! {

/// The decimal digit character for `d`.
pub open spec fn spec_digit(d: int) -> char
    recommends
        0 <= d < 10,
{
    (((48 + d) as u8) as char)
}

/// The decimal rendering of `n`, most significant digit first.
pub open spec fn spec_decimal(n: int) -> Seq<char>
    recommends
        n >= 0,
    decreases n,
{
    if n < 10 {
        seq![spec_digit(n)]
    } else {
        spec_decimal(n / 10).push(spec_digit(n % 10))
    }
}

/// The firmware version string a device's build, major and minor fields
/// format to: the three numbers, dot-separated.
pub open spec fn spec_firmware_version(build: u64, version_major: u16, version_minor: u16) -> Seq<
    char,
> {
    spec_decimal(build as int) + seq!['.'] + spec_decimal(version_major as int) + seq!['.']
        + spec_decimal(version_minor as int)
}

fn push_decimal(s: &mut String, n: u64)
    ensures
        final(s)@ == old(s)@ + spec_decimal(n as int),
    decreases n,
{
    if n >= 10 {
        push_decimal(s, n / 10);
    }
    let d = (n % 10) as u8;
    s.push((48 + d) as char);
    proof {
        assert(final(s)@ =~= old(s)@ + spec_decimal(n as int));
    }
}

/// Formats build, major and minor as the dot-separated version string.
pub fn format_firmware_version(build: u64, version_major: u16, version_minor: u16) -> (r: String)
    ensures
        r@ == spec_firmware_version(build, version_major, version_minor),
{
    let mut s = String::new();
    push_decimal(&mut s, build);
    s.push('.');
    push_decimal(&mut s, version_major as u64);
    s.push('.');
    push_decimal(&mut s, version_minor as u64);
    proof {
        assert(s@ =~= spec_firmware_version(build, version_major, version_minor));
    }
    s
}

/// The transport code of a service advertisement this core acts on: the
/// datagram service.
pub const UDP_SERVICE: u8 = 1;

/// How one decoded report changes the registry. A service advertisement
/// for the datagram service creates a default entry when the address has
/// none; each state report merges exactly the fields it carries; every
/// other kind leaves the registry as it stands.
pub open spec fn spec_apply_report(
    m: Map<Seq<char>, LightModel>,
    src: Seq<char>,
    r: ReportModel,
) -> Map<Seq<char>, LightModel> {
    match r {
        ReportModel::StateService { service, .. } => if service == UDP_SERVICE
            && !m.contains_key(src) {
            m.insert(src, LightModel::empty())
        } else {
            m
        },
        ReportModel::Label { label } => m.insert(src, state_of(m, src).with_label(label)),
        ReportModel::HostFirmware { build, version_minor, version_major } => m.insert(
            src,
            state_of(m, src).with_firmware_version(
                spec_firmware_version(build, version_major, version_minor),
            ),
        ),
        ReportModel::LightState { hue, saturation, brightness, kelvin, power, label } => m.insert(
            src,
            state_of(m, src).with_light_state(hue, saturation, brightness, kelvin, power, label),
        ),
        ReportModel::Other => m,
    }
}

/// Merges one decoded report from `source` into the registry, exactly as
/// `spec_apply_report` prescribes.
pub fn apply_report(reg: &mut Registry, source: &String, report: &Report)
    requires
        old(reg).wf(),
    ensures
        final(reg).wf(),
        final(reg)@ == spec_apply_report(old(reg)@, source@, report@),
{
    match report {
        Report::StateService { service, .. } => {
            if *service == UDP_SERVICE {
                reg.ensure_entry(source);
            }
        },
        Report::Label { label } => {
            reg.merge_label(source, label.clone());
        },
        Report::HostFirmware { build, version_minor, version_major } => {
            let version = format_firmware_version(*build, *version_major, *version_minor);
            reg.merge_firmware(source, version);
        },
        Report::LightState { hue, saturation, brightness, kelvin, power, label } => {
            reg.merge_light_state(
                source,
                *hue,
                *saturation,
                *brightness,
                *kelvin,
                *power,
                label.clone(),
            );
        },
        Report::Other => {},
    }
}

/// Whether a report carries a label field.
pub open spec fn carries_label(r: ReportModel) -> bool {
    r is Label || r is LightState
}

/// Whether a report carries the firmware-version fields.
pub open spec fn carries_firmware(r: ReportModel) -> bool {
    r is HostFirmware
}

/// Whether a report carries the power and color-channel fields.
pub open spec fn carries_light_state(r: ReportModel) -> bool {
    r is LightState
}

/// The registry merge is field-level, one step: a report from `src`
/// leaves every other address exactly as it stands, and at `src` itself
/// every field the report does not carry keeps its value.
pub proof fn lemma_apply_report_field_level(
    m: Map<Seq<char>, LightModel>,
    src: Seq<char>,
    r: ReportModel,
    a: Seq<char>,
)
    ensures
        a != src ==> state_of(spec_apply_report(m, src, r), a) == state_of(m, a),
        a != src ==> (spec_apply_report(m, src, r).contains_key(a) <==> m.contains_key(a)),
        !carries_label(r) ==> state_of(spec_apply_report(m, src, r), a).label == state_of(
            m,
            a,
        ).label,
        !carries_firmware(r) ==> state_of(spec_apply_report(m, src, r), a).firmware_version
            == state_of(m, a).firmware_version,
        !carries_light_state(r) ==> state_of(spec_apply_report(m, src, r), a).power == state_of(
            m,
            a,
        ).power && state_of(spec_apply_report(m, src, r), a).hue == state_of(m, a).hue && state_of(
            spec_apply_report(m, src, r),
            a,
        ).saturation == state_of(m, a).saturation && state_of(spec_apply_report(m, src, r), a).brightness
            == state_of(m, a).brightness && state_of(spec_apply_report(m, src, r), a).kelvin
            == state_of(m, a).kelvin,
{
}

/// One report from each of a sequence of senders, in order.
pub open spec fn spec_apply_reports(
    m: Map<Seq<char>, LightModel>,
    rs: Seq<(Seq<char>, ReportModel)>,
) -> Map<Seq<char>, LightModel>
    decreases rs.len(),
{
    if rs.len() == 0 {
        m
    } else {
        spec_apply_report(spec_apply_reports(m, rs.drop_last()), rs.last().0, rs.last().1)
    }
}

/// The registry merge is field-level over any sequence of decoded
/// reports: a field of an address that no report in the sequence carries
/// for that address is never clobbered — it keeps the value it had before
/// the sequence.
pub proof fn lemma_apply_reports_field_level(
    m: Map<Seq<char>, LightModel>,
    rs: Seq<(Seq<char>, ReportModel)>,
    a: Seq<char>,
)
    ensures
        (forall|i: int|
            0 <= i < rs.len() ==> !((#[trigger] rs[i]).0 == a && carries_label(rs[i].1)))
            ==> state_of(spec_apply_reports(m, rs), a).label == state_of(m, a).label,
        (forall|i: int|
            0 <= i < rs.len() ==> !((#[trigger] rs[i]).0 == a && carries_firmware(rs[i].1)))
            ==> state_of(spec_apply_reports(m, rs), a).firmware_version == state_of(
            m,
            a,
        ).firmware_version,
        (forall|i: int|
            0 <= i < rs.len() ==> !((#[trigger] rs[i]).0 == a && carries_light_state(rs[i].1)))
            ==> state_of(spec_apply_reports(m, rs), a).power == state_of(m, a).power && state_of(
            spec_apply_reports(m, rs),
            a,
        ).hue == state_of(m, a).hue && state_of(spec_apply_reports(m, rs), a).saturation
            == state_of(m, a).saturation && state_of(spec_apply_reports(m, rs), a).brightness
            == state_of(m, a).brightness && state_of(spec_apply_reports(m, rs), a).kelvin
            == state_of(m, a).kelvin,
    decreases rs.len(),
{
    if rs.len() == 0 {
    } else {
        lemma_apply_reports_field_level(m, rs.drop_last(), a);
        lemma_apply_report_field_level(
            spec_apply_reports(m, rs.drop_last()),
            rs.last().0,
            rs.last().1,
            a,
        );
        assert(rs.last() == rs[rs.len() - 1]);
        assert(forall|i: int| 0 <= i < rs.len() - 1 ==> rs.drop_last()[i] == rs[i]);
    }
}

/// One inbound datagram as the socket hands it over: the sender's address
/// and the raw bytes.
pub struct Datagram {
    pub source: String,
    pub data: Vec<u8>,
}

/// Model of an inbound datagram.
pub struct DatagramModel {
    pub source: Seq<char>,
    pub data: Seq<u8>,
}

impl View for Datagram {
    type V = DatagramModel;

    open spec fn view(&self) -> DatagramModel {
        DatagramModel { source: self.source@, data: self.data@ }
    }
}

/// The models of a batch of datagrams, in arrival order.
pub open spec fn models_of(s: Seq<Datagram>) -> Seq<DatagramModel> {
    s.map_values(|d: Datagram| d@)
}

/// How one datagram changes the registry: a datagram that decodes is
/// applied; one that does not decode changes nothing.
pub open spec fn spec_apply_datagram(
    m: Map<Seq<char>, LightModel>,
    d: DatagramModel,
) -> Map<Seq<char>, LightModel> {
    match spec_decode(d.data) {
        Ok(r) => spec_apply_report(m, d.source, r),
        Err(_) => m,
    }
}

/// How a batch of datagrams changes the registry, in arrival order.
pub open spec fn spec_apply_datagrams(
    m: Map<Seq<char>, LightModel>,
    ds: Seq<DatagramModel>,
) -> Map<Seq<char>, LightModel>
    decreases ds.len(),
{
    if ds.len() == 0 {
        m
    } else {
        spec_apply_datagram(spec_apply_datagrams(m, ds.drop_last()), ds.last())
    }
}

/// The reports a batch of datagrams decodes to, with their senders, in
/// arrival order; the datagrams that do not decode contribute nothing.
pub open spec fn decoded_reports(ds: Seq<DatagramModel>) -> Seq<(Seq<char>, ReportModel)>
    decreases ds.len(),
{
    if ds.len() == 0 {
        Seq::empty()
    } else {
        decoded_reports(ds.drop_last()) + (match spec_decode(ds.last().data) {
            Ok(r) => seq![(ds.last().source, r)],
            Err(_) => Seq::empty(),
        })
    }
}

/// A batch of datagrams changes the registry exactly as its well-decoded
/// reports do, applied in arrival order: the malformed datagrams among
/// them leave no trace at all.
pub proof fn lemma_datagrams_apply_decoded(
    m: Map<Seq<char>, LightModel>,
    ds: Seq<DatagramModel>,
)
    ensures
        spec_apply_datagrams(m, ds) == spec_apply_reports(m, decoded_reports(ds)),
    decreases ds.len(),
{
    if ds.len() == 0 {
    } else {
        lemma_datagrams_apply_decoded(m, ds.drop_last());
        let rs = decoded_reports(ds.drop_last());
        match spec_decode(ds.last().data) {
            Ok(r) => {
                let p = (ds.last().source, r);
                assert(decoded_reports(ds) =~= rs.push(p));
                assert(rs.push(p).drop_last() =~= rs);
                assert(rs.push(p).last() == p);
            },
            Err(_) => {
                assert(decoded_reports(ds) =~= rs);
            },
        }
    }
}

/// Decodes one datagram and merges it into the registry. A decode failure
/// is reported to the caller (which logs and discards); it changes the
/// registry in no way and is never fatal.
pub fn process_datagram(reg: &mut Registry, source: &String, data: &[u8]) -> (r: Result<
    (),
    DecodeError,
>)
    requires
        old(reg).wf(),
    ensures
        final(reg).wf(),
        spec_decode(data@) is Ok ==> r is Ok && final(reg)@ == spec_apply_report(
            old(reg)@,
            source@,
            spec_decode(data@)->Ok_0,
        ),
        spec_decode(data@) is Err ==> r == Result::<(), DecodeError>::Err(
            spec_decode(data@)->Err_0,
        ) && final(reg)@ == old(reg)@,
{
    match decode_report(data) {
        Ok(report) => {
            apply_report(reg, source, &report);
            Ok(())
        },
        Err(e) => Err(e),
    }
}

/// The inbound phase of one cycle: every datagram received this cycle is
/// decoded and merged in arrival order; the malformed ones among them
/// change nothing and abort nothing.
pub fn inbound_phase(reg: &mut Registry, datagrams: &Vec<Datagram>)
    requires
        old(reg).wf(),
    ensures
        final(reg).wf(),
        final(reg)@ == spec_apply_datagrams(old(reg)@, models_of(datagrams@)),
{
    let ghost ms = models_of(datagrams@);
    let n = datagrams.len();
    let mut j: usize = 0;
    while j < n
        invariant
            j <= n,
            n == datagrams@.len(),
            ms == models_of(datagrams@),
            reg.wf(),
            reg@ == spec_apply_datagrams(old(reg)@, ms.subrange(0, j as int)),
        decreases n - j,
    {
        let d = &datagrams[j];
        let _ = process_datagram(reg, &d.source, d.data.as_slice());
        proof {
            assert(ms.subrange(0, j + 1).drop_last() =~= ms.subrange(0, j as int));
            assert(ms.subrange(0, j + 1).last() == ms[j as int]);
        }
        j = j + 1;
    }
    proof {
        assert(ms.subrange(0, n as int) =~= ms);
    }
}

/// One full polling cycle of the multiplexer, shutdown observed first:
/// with the flag set the cycle does nothing — no registry write, no
/// command leaves the queue. Otherwise the inbound phase runs before the
/// outbound phase (reports lead commands within a cycle), and the drain
/// returns every queued command, in order, for sending.
pub fn mux_cycle(
    reg: &mut Registry,
    chan: &mut CommandChannel,
    datagrams: &Vec<Datagram>,
    shutdown: bool,
) -> (out: Vec<Request>)
    requires
        old(reg).wf(),
    ensures
        final(reg).wf(),
        final(chan).is_closed() == old(chan).is_closed(),
        shutdown ==> final(reg)@ == old(reg)@ && final(chan)@ == old(chan)@ && out@
            == Seq::<Request>::empty(),
        !shutdown ==> final(reg)@ == spec_apply_datagrams(old(reg)@, models_of(datagrams@))
            && out@ == old(chan)@ && final(chan)@ == Seq::<Request>::empty(),
{
    if shutdown {
        return Vec::new();
    }
    inbound_phase(reg, datagrams);
    chan.try_receive_all()
}

} // verus!
