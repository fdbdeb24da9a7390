//! The discovery step: once per interval the caller enumerates the
//! broadcast-capable endpoints and hands them over; this module decides
//! which endpoints to probe, builds one status-query request per endpoint
//! kept, stamps each with the next correlation sequence number, and
//! enqueues them. Endpoints matching the configured exclusion — the
//! daemon's own attached device network — are skipped to avoid self-query
//! loops. A dropped probe is never retried; it waits for the next cycle.

use vstd::prelude::*;
use crate::channel::{CommandChannel, SendError};
use crate::codec::zero_bytes;
use crate::envelope::{wrapping_next, RequestOptions};
use crate::message::{Command, Request};

verus! {

/// The broadcast address of the device network the daemon itself sits on;
/// probing it would make the daemon query itself.
pub open spec fn spec_excluded_endpoint() -> Seq<char> {
    "172.16.0.255"@
}

/// The control-port suffix appended to a broadcast address to form a
/// probe's destination.
pub open spec fn spec_port_suffix() -> Seq<char> {
    ":56700"@
}

/// The envelope every discovery probe travels under: a tagged broadcast
/// from the discovery source, response required, no acknowledgment, with
/// the given correlation sequence number.
pub open spec fn is_probe_envelope(o: RequestOptions, sequence: u8) -> bool {
    o.tagged == true && o.source == 10 && o.target@ == zero_bytes(8) && o.ack_required == false
        && o.res_required == true && o.sequence == sequence
}

/// The destination and sequence number of each probe for these endpoints,
/// in order: excluded endpoints contribute nothing, every other endpoint
/// one probe, and the sequence number advances once per probe built.
pub open spec fn spec_probe_plan(eps: Seq<Seq<char>>, s0: u8) -> Seq<(Seq<char>, u8)>
    decreases eps.len(),
{
    if eps.len() == 0 {
        Seq::empty()
    } else if eps[0] == spec_excluded_endpoint() {
        spec_probe_plan(eps.drop_first(), s0)
    } else {
        seq![(eps[0] + spec_port_suffix(), s0)] + spec_probe_plan(
            eps.drop_first(),
            wrapping_next(s0),
        )
    }
}

/// The sequence counter's value after the probes for these endpoints have
/// been built: advanced once per endpoint kept.
pub open spec fn spec_sequence_after(eps: Seq<Seq<char>>, s0: u8) -> u8
    decreases eps.len(),
{
    if eps.len() == 0 {
        s0
    } else if eps[0] == spec_excluded_endpoint() {
        spec_sequence_after(eps.drop_first(), s0)
    } else {
        spec_sequence_after(eps.drop_first(), wrapping_next(s0))
    }
}

/// The destination and sequence number of each built request.
pub open spec fn plan_of(rs: Seq<Request>) -> Seq<(Seq<char>, u8)> {
    rs.map_values(|r: Request| (r.target@, r.options.sequence))
}

/// The views of a list of endpoint strings.
pub open spec fn views_of(eps: Seq<String>) -> Seq<Seq<char>> {
    eps.map_values(|e: String| e@)
}

proof fn lemma_probe_plan_snoc(eps: Seq<Seq<char>>, e: Seq<char>, s0: u8)
    ensures
        e == spec_excluded_endpoint() ==> spec_probe_plan(eps.push(e), s0) == spec_probe_plan(
            eps,
            s0,
        ) && spec_sequence_after(eps.push(e), s0) == spec_sequence_after(eps, s0),
        e != spec_excluded_endpoint() ==> spec_probe_plan(eps.push(e), s0) == spec_probe_plan(
            eps,
            s0,
        ).push((e + spec_port_suffix(), spec_sequence_after(eps, s0))) && spec_sequence_after(
            eps.push(e),
            s0,
        ) == wrapping_next(spec_sequence_after(eps, s0)),
    decreases eps.len(),
{
    if eps.len() == 0 {
        assert(eps.push(e)[0] == e);
        assert(eps.push(e).drop_first() =~= Seq::<Seq<char>>::empty());
        assert(spec_probe_plan(Seq::<Seq<char>>::empty(), s0) =~= Seq::<(Seq<char>, u8)>::empty());
        assert(spec_probe_plan(Seq::<Seq<char>>::empty(), wrapping_next(s0)) =~= Seq::<
            (Seq<char>, u8),
        >::empty());
        assert(spec_sequence_after(Seq::<Seq<char>>::empty(), s0) == s0);
        assert(spec_sequence_after(Seq::<Seq<char>>::empty(), wrapping_next(s0))
            == wrapping_next(s0));
        if e != spec_excluded_endpoint() {
            assert(spec_probe_plan(eps.push(e), s0) =~= spec_probe_plan(eps, s0).push(
                (e + spec_port_suffix(), s0),
            ));
        }
    } else {
        assert(eps.push(e)[0] == eps[0]);
        assert(eps.push(e).drop_first() =~= eps.drop_first().push(e));
        lemma_probe_plan_snoc(eps.drop_first(), e, s0);
        lemma_probe_plan_snoc(eps.drop_first(), e, wrapping_next(s0));
        if e != spec_excluded_endpoint() {
            if eps[0] == spec_excluded_endpoint() {
            } else {
                assert(spec_probe_plan(eps.push(e), s0) =~= spec_probe_plan(eps, s0).push(
                    (e + spec_port_suffix(), spec_sequence_after(eps, s0)),
                ));
            }
        }
    }
}

/// The first probe of a plan carries the counter's starting value.
pub proof fn lemma_probe_plan_first(eps: Seq<Seq<char>>, s0: u8)
    ensures
        spec_probe_plan(eps, s0).len() > 0 ==> spec_probe_plan(eps, s0)[0].1 == s0,
    decreases eps.len(),
{
    if eps.len() == 0 {
    } else if eps[0] == spec_excluded_endpoint() {
        lemma_probe_plan_first(eps.drop_first(), s0);
    } else {
    }
}

/// Consecutive probes of one discovery pass carry consecutive sequence
/// numbers: each probe's number is its predecessor's plus one, modulo 256.
pub proof fn lemma_probe_plan_sequence_step(eps: Seq<Seq<char>>, s0: u8, i: int)
    requires
        0 <= i,
        i + 1 < spec_probe_plan(eps, s0).len(),
    ensures
        spec_probe_plan(eps, s0)[i + 1].1 == wrapping_next(spec_probe_plan(eps, s0)[i].1),
    decreases eps.len(),
{
    if eps.len() == 0 {
    } else if eps[0] == spec_excluded_endpoint() {
        lemma_probe_plan_sequence_step(eps.drop_first(), s0, i);
    } else {
        let rest = spec_probe_plan(eps.drop_first(), wrapping_next(s0));
        if i == 0 {
            lemma_probe_plan_first(eps.drop_first(), wrapping_next(s0));
            assert(spec_probe_plan(eps, s0)[1] == rest[0]);
        } else {
            lemma_probe_plan_sequence_step(eps.drop_first(), wrapping_next(s0), i - 1);
            assert(spec_probe_plan(eps, s0)[i] == rest[i - 1]);
            assert(spec_probe_plan(eps, s0)[i + 1] == rest[i]);
        }
    }
}

fn excluded_endpoint() -> (r: String)
    ensures
        r@ == spec_excluded_endpoint(),
{
    String::from_str("172.16.0.255")
}

/// Builds the status-query probes for one discovery pass: one per
/// endpoint kept, addressed as a targeted broadcast to that endpoint's
/// control port, each stamped with the next sequence number from the
/// caller's envelope state, which advances accordingly.
pub fn discovery_probes(endpoints: &Vec<String>, options: &mut RequestOptions) -> (probes: Vec<
    Request,
>)
    requires
        is_probe_envelope(*old(options), old(options).sequence),
    ensures
        is_probe_envelope(*final(options), final(options).sequence),
        final(options).sequence == spec_sequence_after(
            views_of(endpoints@),
            old(options).sequence,
        ),
        plan_of(probes@) == spec_probe_plan(views_of(endpoints@), old(options).sequence),
        forall|i: int| 0 <= i < probes@.len() ==> (#[trigger] probes@[i]).message is GetColor,
        forall|i: int|
            0 <= i < probes@.len() ==> is_probe_envelope(
                (#[trigger] probes@[i]).options,
                probes@[i].options.sequence,
            ),
{
    let excluded = excluded_endpoint();
    let n = endpoints.len();
    let mut probes: Vec<Request> = Vec::new();
    let mut j: usize = 0;
    while j < n
        invariant
            j <= n,
            n == endpoints@.len(),
            is_probe_envelope(*options, options.sequence),
            excluded@ == spec_excluded_endpoint(),
            options.tagged == old(options).tagged,
            options.sequence == spec_sequence_after(
                views_of(endpoints@.subrange(0, j as int)),
                old(options).sequence,
            ),
            plan_of(probes@) == spec_probe_plan(
                views_of(endpoints@.subrange(0, j as int)),
                old(options).sequence,
            ),
            forall|i: int| 0 <= i < probes@.len() ==> (#[trigger] probes@[i]).message is GetColor,
            forall|i: int|
                0 <= i < probes@.len() ==> is_probe_envelope(
                    (#[trigger] probes@[i]).options,
                    probes@[i].options.sequence,
                ),
        decreases n - j,
    {
        let ghost prefix = views_of(endpoints@.subrange(0, j as int));
        let endpoint = &endpoints[j];
        if !(*endpoint == excluded) {
            let target = endpoint.clone().concat(":56700");
            proof {
                assert(target@ == endpoints@[j as int]@ + spec_port_suffix());
            }
            let probe = Request { options: *options, message: Command::GetColor, target };
            probes.push(probe);
            options.increment_sequence();
        }
        proof {
            lemma_probe_plan_snoc(prefix, endpoints@[j as int]@, old(options).sequence);
            assert(views_of(endpoints@.subrange(0, j + 1)) =~= prefix.push(
                endpoints@[j as int]@,
            ));
            assert(plan_of(probes@) =~= spec_probe_plan(
                views_of(endpoints@.subrange(0, j + 1)),
                old(options).sequence,
            ));
        }
        j = j + 1;
    }
    proof {
        assert(views_of(endpoints@.subrange(0, n as int)) =~= views_of(endpoints@));
    }
    probes
}

/// One discovery pass: builds the probes for these endpoints and enqueues
/// them in order. While the channel is open every probe is accepted and
/// the pass reports success; after consumer shutdown nothing is enqueued
/// and the terminal error is reported.
pub fn run_discovery_cycle(
    chan: &mut CommandChannel,
    endpoints: &Vec<String>,
    options: &mut RequestOptions,
) -> (r: Result<(), SendError>)
    requires
        is_probe_envelope(*old(options), old(options).sequence),
    ensures
        final(chan).is_closed() == old(chan).is_closed(),
        old(chan).is_closed() ==> r is Err && final(chan)@ == old(chan)@,
        !old(chan).is_closed() ==> r is Ok && {
            &&& final(chan)@.len() == old(chan)@.len() + spec_probe_plan(
                views_of(endpoints@),
                old(options).sequence,
            ).len()
            &&& final(chan)@.subrange(0, old(chan)@.len() as int) == old(chan)@
            &&& plan_of(final(chan)@.skip(old(chan)@.len() as int)) == spec_probe_plan(
                views_of(endpoints@),
                old(options).sequence,
            )
            &&& forall|i: int|
                old(chan)@.len() <= i < final(chan)@.len() ==> ((#[trigger] final(chan)@[i]).message is GetColor
                    && is_probe_envelope(final(chan)@[i].options, final(chan)@[i].options.sequence))
        },
        is_probe_envelope(*final(options), final(options).sequence),
{
    if chan.is_shut_down() {
        return Err(SendError);
    }
    let probes = discovery_probes(endpoints, options);
    let ghost plan = plan_of(probes@);
    let n = probes.len();
    let mut probes = probes;
    let mut j: usize = 0;
    while j < n
        invariant
            j <= n,
            n == plan.len(),
            !chan.is_closed(),
            probes@.len() == n - j,
            plan_of(probes@) == plan.skip(j as int),
            forall|i: int| 0 <= i < probes@.len() ==> (#[trigger] probes@[i]).message is GetColor,
            forall|i: int|
                0 <= i < probes@.len() ==> is_probe_envelope(
                    (#[trigger] probes@[i]).options,
                    probes@[i].options.sequence,
                ),
            chan@.len() == old(chan)@.len() + j,
            chan@.subrange(0, old(chan)@.len() as int) == old(chan)@,
            plan_of(chan@.skip(old(chan)@.len() as int)) == plan.subrange(0, j as int),
            forall|i: int|
                old(chan)@.len() <= i < chan@.len() ==> (#[trigger] chan@[i]).message is GetColor
                    && is_probe_envelope(chan@[i].options, chan@[i].options.sequence),
        decreases n - j,
    {
        let ghost probes_pre = probes@;
        let ghost chan_pre = chan@;
        let probe = probes.remove(0);
        proof {
            assert(probes@ == probes_pre.remove(0));
            assert forall|k: int| 0 <= k < probes@.len() implies plan_of(probes@)[k] == plan.skip(
                j + 1,
            )[k] by {
                assert(probes@[k] == probes_pre[k + 1]);
                assert(plan_of(probes_pre)[k + 1] == plan.skip(j as int)[k + 1]);
            }
            assert(plan_of(probes@) =~= plan.skip(j + 1));
            assert(probe == probes_pre[0]);
            assert(plan_of(probes_pre)[0] == plan.skip(j as int)[0]);
            assert(plan[j as int] == (probe.target@, probe.options.sequence));
        }
        let _ = chan.send(probe);
        proof {
            assert(chan@ == chan_pre.push(probe));
            assert(chan@.subrange(0, old(chan)@.len() as int) =~= old(chan)@);
            assert forall|k: int| 0 <= k < j + 1 implies plan_of(chan@.skip(
                old(chan)@.len() as int,
            ))[k] == plan.subrange(0, j + 1)[k] by {
                if k < j {
                    assert(chan@.skip(old(chan)@.len() as int)[k] == chan_pre.skip(
                        old(chan)@.len() as int,
                    )[k]);
                    assert(plan_of(chan_pre.skip(old(chan)@.len() as int))[k] == plan.subrange(
                        0,
                        j as int,
                    )[k]);
                } else {
                    assert(chan@.skip(old(chan)@.len() as int)[k] == probe);
                }
            }
            assert(plan_of(chan@.skip(old(chan)@.len() as int)) =~= plan.subrange(0, j + 1));
        }
        j = j + 1;
    }
    proof {
        assert(plan.subrange(0, n as int) =~= plan);
        assert(plan_of(chan@.skip(old(chan)@.len() as int)) == plan);
    }
    Ok(())
}

} // verus!
