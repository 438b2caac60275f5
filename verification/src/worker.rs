use vstd::prelude::*;
use crate::args::Protocol;
use crate::counter::Counters;
use crate::query::EncodeError;
use crate::query::query_wire;
use crate::query::simple;
use crate::store::QueryInfo;
use crate::store::Store;
use crate::store::claim_count;
use crate::transport::RecordingLink;
use crate::transport::TransportError;
use crate::transport::send_breaks;
use crate::transport::spec_frames;

verus! {

/// Why a dispatch worker stopped: its query could not be built, or its
/// transport failed. Either is fatal for the worker alone.
#[derive(Clone, Copy, Debug, PartialEq, Eq, Structural)]
pub enum DispatchError {
    Encode(EncodeError),
    Transport(TransportError),
}

/// The state a dispatch pass threads through: the in-flight map, the `sent`
/// counter, the writes the transport has issued, the number of send calls
/// made, and whether the pass is still running cleanly.
pub struct DispatchModel {
    pub flight: Map<u16, QueryInfo>,
    pub sent: int,
    pub writes: Seq<Seq<u8>>,
    pub attempts: int,
    pub outcome: Result<(), DispatchError>,
}

/// Dispatch the claimed ids in order, starting from state `m`: for each id,
/// build and encode its query, send it (framing it for the transport, which
/// may break at a scheduled call), and only then record the id in flight and
/// bump the `sent` counter. The first failure ends the pass; ids after it are
/// not attempted, and ids the pass never reached stay out of circulation.
pub open spec fn spec_dispatch(
    ids: Seq<u16>,
    record: Seq<char>,
    qtype: u16,
    p: Protocol,
    fail_at: Option<usize>,
    now: u64,
    m: DispatchModel,
) -> DispatchModel
    decreases ids.len(),
{
    if ids.len() == 0 || m.outcome is Err {
        m
    } else {
        let id = ids[0];
        match query_wire(id, record, qtype) {
            None => DispatchModel {
                outcome: Err(DispatchError::Encode(EncodeError::Invalid)),
                ..m
            },
            Some(wire) => match spec_frames(p, wire) {
                Err(e) => DispatchModel {
                    attempts: m.attempts + 1,
                    outcome: Err(DispatchError::Transport(e)),
                    ..m
                },
                Ok(fs) => if send_breaks(fail_at, m.attempts) {
                    DispatchModel {
                        attempts: m.attempts + 1,
                        outcome: Err(DispatchError::Transport(TransportError::Broken)),
                        ..m
                    }
                } else {
                    spec_dispatch(
                        ids.drop_first(),
                        record,
                        qtype,
                        p,
                        fail_at,
                        now,
                        DispatchModel {
                            flight: m.flight.insert(id, QueryInfo { sent: now }),
                            sent: m.sent + 1,
                            writes: m.writes + fs,
                            attempts: m.attempts + 1,
                            outcome: m.outcome,
                        },
                    )
                },
            },
        }
    }
}

/// The dispatch state read off the live objects, with a clean outcome.
pub open spec fn dispatch_state(
    store: &Store,
    counters: &Counters,
    link: &RecordingLink,
) -> DispatchModel {
    DispatchModel {
        flight: store.flight(),
        sent: counters.sent as int,
        writes: link.writes.deep_view(),
        attempts: link.attempts as int,
        outcome: Ok(()),
    }
}

/// One iteration of a dispatch worker's loop, after the cooperative yield and
/// with rate admission already granted for the round: claim a batch of ids
/// from the store, then for each claimed id in order build its query, send it
/// over the link, record it in flight stamped `now`, and bump the `sent`
/// counter. The first encode or transport failure is returned and ends the
/// pass; claimed ids not yet dispatched are dropped, not requeued.
pub fn dispatch_batch(
    store: &mut Store,
    counters: &mut Counters,
    link: &mut RecordingLink,
    record: &str,
    qtype: u16,
    batch_size: usize,
    now: u64,
) -> (r: Result<(), DispatchError>)
    requires
        old(store).wf(),
        old(counters).sent + old(store).free().len() <= u64::MAX,
        old(link).attempts + old(store).free().len() <= usize::MAX,
    ensures
        final(store).wf(),
        final(store).free() == old(store).free().skip(
            claim_count(batch_size as int, old(store).free().len() as int),
        ),
        final(counters).received == old(counters).received,
        final(counters).timed_out == old(counters).timed_out,
        final(link).protocol == old(link).protocol,
        final(link).fail_at == old(link).fail_at,
        ({
            let claimed = old(store).free().take(
                claim_count(batch_size as int, old(store).free().len() as int),
            );
            let mf = spec_dispatch(
                claimed,
                record@,
                qtype,
                old(link).protocol,
                old(link).fail_at,
                now,
                dispatch_state(old(store), old(counters), old(link)),
            );
            &&& final(store).flight() == mf.flight
            &&& final(counters).sent as int == mf.sent
            &&& final(link).writes.deep_view() == mf.writes
            &&& final(link).attempts as int == mf.attempts
            &&& r == mf.outcome
        }),
{
    let ghost m0 = DispatchModel {
        flight: old(store).flight(),
        sent: old(counters).sent as int,
        writes: old(link).writes.deep_view(),
        attempts: old(link).attempts as int,
        outcome: Ok(()),
    };
    let ids = store.claim(batch_size);
    let ghost claimed = ids@;
    let ghost k = claim_count(batch_size as int, old(store).free().len() as int);
    let n = ids.len();
    proof {
        assert(claimed.skip(0) =~= claimed);
    }
    let mut i: usize = 0;
    while i < n
        invariant
            0 <= i <= n,
            n == claimed.len(),
            ids@ == claimed,
            claimed == old(store).free().take(k),
            k == claim_count(batch_size as int, old(store).free().len() as int),
            m0 == dispatch_state(old(store), old(counters), old(link)),
            store.wf(),
            store.free() == old(store).free().skip(k),
            forall|j: int| 0 <= j < claimed.len() ==> !store.free().contains(#[trigger] claimed[j]),
            counters.sent == m0.sent + i,
            counters.received == old(counters).received,
            counters.timed_out == old(counters).timed_out,
            link.attempts == m0.attempts + i,
            link.protocol == old(link).protocol,
            link.fail_at == old(link).fail_at,
            m0.sent + claimed.len() <= u64::MAX,
            m0.attempts + claimed.len() <= usize::MAX,
            spec_dispatch(claimed, record@, qtype, link.protocol, link.fail_at, now, m0)
                == spec_dispatch(
                claimed.skip(i as int),
                record@,
                qtype,
                link.protocol,
                link.fail_at,
                now,
                dispatch_state(store, counters, link),
            ),
        decreases n - i,
    {
        let ghost m_i = dispatch_state(store, counters, link);
        assert(claimed.skip(i as int)[0] == claimed[i as int]);
        let id = ids[i];
        let msg = match simple(id, record, qtype) {
            Ok(v) => v,
            Err(e) => {
                proof {
                    assert(e == EncodeError::Invalid);
                    assert(spec_dispatch(
                        claimed.skip(i as int),
                        record@,
                        qtype,
                        link.protocol,
                        link.fail_at,
                        now,
                        m_i,
                    ) == (DispatchModel {
                        outcome: Err(DispatchError::Encode(EncodeError::Invalid)),
                        ..m_i
                    }));
                }
                return Err(DispatchError::Encode(e));
            },
        };
        match link.send(&msg) {
            Ok(()) => {},
            Err(e) => {
                proof {
                    assert(link.writes.deep_view() == m_i.writes);
                    assert(link.attempts == m_i.attempts + 1);
                    assert(spec_dispatch(
                        claimed.skip(i as int),
                        record@,
                        qtype,
                        link.protocol,
                        link.fail_at,
                        now,
                        m_i,
                    ) == (DispatchModel {
                        attempts: m_i.attempts + 1,
                        outcome: Err(DispatchError::Transport(e)),
                        ..m_i
                    }));
                }
                return Err(DispatchError::Transport(e));
            },
        }
        store.mark_in_flight(id, QueryInfo { sent: now });
        counters.increment_sent();
        proof {
            assert(claimed.skip(i as int).drop_first() =~= claimed.skip(i + 1));
        }
        i = i + 1;
    }
    proof {
        assert(claimed.skip(n as int) =~= Seq::<u16>::empty());
    }
    Ok(())
}

} // verus!
