use vstd::prelude::*;
use vstd::slice::slice_to_vec;
use crate::hub::{BroadcastHub, MessageModel, spec_publish, lemma_publish_preserves_retained};
use crate::pty_manager::{
    lemma_found_is_the_session, lemma_update_same_id, spec_append, spec_contains, spec_index_of,
    spec_session, spec_stop, PtyManager, SessionModel,
};
use crate::session::SessionStatus;

verus! {

/// The bytes a whole chunk script amounts to, in script order.
pub open spec fn spec_script_bytes(chunks: Seq<Seq<u8>>) -> Seq<u8>
    decreases chunks.len(),
{
    if chunks.len() == 0 {
        Seq::empty()
    } else {
        chunks[0] + spec_script_bytes(chunks.drop_first())
    }
}

pub proof fn lemma_script_bytes_push(chunks: Seq<Seq<u8>>, c: Seq<u8>)
    ensures
        spec_script_bytes(chunks.push(c)) == spec_script_bytes(chunks) + c,
    decreases chunks.len(),
{
    if chunks.len() == 0 {
        assert(chunks =~= Seq::<Seq<u8>>::empty());
        assert(spec_script_bytes(Seq::<Seq<u8>>::empty()) == Seq::<u8>::empty());
        assert(chunks.push(c).drop_first() =~= Seq::<Seq<u8>>::empty());
        assert(chunks.push(c)[0] == c);
        assert(spec_script_bytes(chunks.push(c)) == c + Seq::<u8>::empty());
        assert(c + Seq::<u8>::empty() =~= Seq::<u8>::empty() + c);
    } else {
        assert(chunks.push(c).drop_first() =~= chunks.drop_first().push(c));
        lemma_script_bytes_push(chunks.drop_first(), c);
        assert(chunks.push(c)[0] == chunks[0]);
        assert(chunks[0] + (spec_script_bytes(chunks.drop_first()) + c) =~= (chunks[0]
            + spec_script_bytes(chunks.drop_first())) + c);
    }
}

/// One iteration of a session's output pump, for one chunk read from the
/// process adapter: the chunk is published to the hub for distribution
/// (best effort — the absence of subscribers is not an error) and the
/// identical bytes are appended to the session's scrollback, in stream
/// order. A session already removed from the registry tolerates the
/// append as a no-op; the result reports whether it was still there.
///
/// On stream end the pump instead calls `PtyManager::mark_stopped` once
/// and emits the exit notice exactly when that call reports the session
/// was still registered.
pub fn pump_chunk<H>(
    mgr: &mut PtyManager<H>,
    hub: &mut BroadcastHub,
    id: &str,
    data: &[u8],
) -> (found: bool)
    requires
        old(mgr).wf(),
        old(hub).wf(),
        old(hub).next() < u64::MAX,
    ensures
        final(mgr).wf(),
        final(hub).wf(),
        final(mgr)@ == spec_append(old(mgr)@, id@, data@),
        found == spec_contains(old(mgr)@, id@),
        final(hub).next() == old(hub).next() + 1,
        final(hub).capacity_spec() == old(hub).capacity_spec(),
        final(hub).window() == spec_publish(
            old(hub).window(),
            old(hub).capacity_spec(),
            MessageModel { session_id: id@, data: data@ },
        ),
        final(hub).msg_at(old(hub).next()) == (MessageModel { session_id: id@, data: data@ }),
{
    hub.publish(id.to_owned(), slice_to_vec(data));
    mgr.append_scrollback(id, data)
}

/// A whole pump run against a scripted process: the deterministic,
/// in-memory counterpart of a live pump. Every chunk of the script is
/// distributed and appended in script order; then the stream ends, the
/// one-shot stopped transition runs, and the result says whether the
/// exit notice is owed. Afterwards the session's scrollback is its old
/// content followed by the script's bytes in order, and every retained
/// chunk sits in the hub at its own, strictly increasing sequence
/// number.
pub fn run_scripted_pump<H>(
    mgr: &mut PtyManager<H>,
    hub: &mut BroadcastHub,
    id: &str,
    chunks: &Vec<Vec<u8>>,
) -> (notify: bool)
    requires
        old(mgr).wf(),
        old(hub).wf(),
        old(hub).next() + chunks@.len() < u64::MAX,
    ensures
        final(mgr).wf(),
        final(hub).wf(),
        final(hub).capacity_spec() == old(hub).capacity_spec(),
        final(hub).next() == old(hub).next() + chunks@.len(),
        notify == spec_contains(old(mgr)@, id@),
        forall|t: int|
            0 <= t < chunks@.len() && old(hub).next() + t >= final(hub).base()
                ==> final(hub).msg_at(old(hub).next() + t) == (MessageModel {
                session_id: id@,
                data: chunks@[t]@,
            }),
        spec_contains(old(mgr)@, id@) ==> {
            &&& spec_contains(final(mgr)@, id@)
            &&& spec_session(final(mgr)@, id@).status == SessionStatus::Stopped
            &&& spec_session(final(mgr)@, id@).scrollback == spec_session(old(mgr)@, id@).scrollback
                + spec_script_bytes(chunks@.map(|_t: int, v: Vec<u8>| v@))
        },
        !spec_contains(old(mgr)@, id@) ==> final(mgr)@ == old(mgr)@,
{
    let ghost m0 = mgr@;
    let ghost n0 = hub.next();
    let ghost contained0 = spec_contains(m0, id@);
    let ghost script = chunks@.map(|_t: int, v: Vec<u8>| v@);
    let n = chunks.len();
    let mut j: usize = 0;
    proof {
        assert(script.subrange(0, 0) =~= Seq::<Seq<u8>>::empty());
    }
    while j < n
        invariant
            j <= n,
            n == chunks@.len(),
            script == chunks@.map(|_t: int, v: Vec<u8>| v@),
            script.len() == n,
            forall|t: int| 0 <= t < n ==> script[t] == #[trigger] chunks@[t]@,
            mgr.wf(),
            hub.wf(),
            hub.capacity_spec() == old(hub).capacity_spec(),
            hub.next() == n0 + j,
            n0 + n < u64::MAX,
            forall|t: int|
                0 <= t < j && n0 + t >= hub.base() ==> hub.msg_at(n0 + t) == (MessageModel {
                    session_id: id@,
                    data: script[t],
                }),
            contained0 == spec_contains(mgr@, id@),
            contained0 ==> spec_session(mgr@, id@).id == id@ && spec_session(mgr@, id@).status
                == spec_session(m0, id@).status && spec_session(mgr@, id@).scrollback
                == spec_session(m0, id@).scrollback + spec_script_bytes(
                script.subrange(0, j as int),
            ),
            !contained0 ==> mgr@ == m0,
        decreases n - j,
    {
        let ghost mpre = mgr@;
        let ghost wpre = hub.window();
        let ghost basepre = hub.base();
        let ghost nextpre = hub.next();
        let _found = pump_chunk(mgr, hub, id, chunks[j].as_slice());
        proof {
            let cap = hub.capacity_spec();
            let msgj = MessageModel { session_id: id@, data: chunks@[j as int]@ };
            let shift: int = if wpre.len() < cap { 0 } else { 1 };
            assert(hub.window() == spec_publish(wpre, cap, msgj));
            assert(hub.window().len() == wpre.len() + 1 - shift);
            assert(hub.base() == basepre + shift);
            assert forall|t: int|
                0 <= t < j + 1 && n0 + t >= hub.base() implies hub.msg_at(n0 + t)
                == (MessageModel { session_id: id@, data: script[t] }) by {
                let s = n0 + t;
                if t < j {
                    assert(s < nextpre);
                    assert(s >= basepre + shift);
                    lemma_publish_preserves_retained(wpre, cap, msgj, basepre, s);
                    assert(hub.msg_at(s) == wpre[s - basepre]);
                } else {
                    assert(s == nextpre);
                    assert(hub.msg_at(s) == msgj);
                }
            }
            if contained0 {
                let i = spec_index_of(mpre, id@);
                assert(0 <= i < mpre.len() && mpre[i].id == id@);
                let s1 = SessionModel {
                    scrollback: mpre[i].scrollback + chunks@[j as int]@,
                    ..mpre[i]
                };
                lemma_update_same_id(mpre, i, s1);
                lemma_found_is_the_session(mpre.update(i, s1), id@, i);
                assert(mgr@ == mpre.update(i, s1));
                assert(spec_session(mgr@, id@) == s1);
                lemma_script_bytes_push(script.subrange(0, j as int), script[j as int]);
                assert(script.subrange(0, j as int).push(script[j as int]) =~= script.subrange(
                    0,
                    j + 1 as int,
                ));
                assert((spec_session(m0, id@).scrollback + spec_script_bytes(
                    script.subrange(0, j as int),
                )) + script[j as int] =~= spec_session(m0, id@).scrollback + (spec_script_bytes(
                    script.subrange(0, j as int),
                ) + script[j as int]));
            } else {
                assert(mgr@ == mpre);
            }
        }
        j = j + 1;
    }
    proof {
        assert(script.subrange(0, n as int) =~= script);
    }
    let ghost mcur = mgr@;
    let notify_flag = mgr.mark_stopped(id);
    proof {
        if contained0 {
            let i = spec_index_of(mcur, id@);
            assert(0 <= i < mcur.len() && mcur[i].id == id@);
            let s2 = SessionModel { status: SessionStatus::Stopped, ..mcur[i] };
            lemma_update_same_id(mcur, i, s2);
            lemma_found_is_the_session(mcur.update(i, s2), id@, i);
            assert(mgr@ == spec_stop(mcur, id@));
            assert(spec_session(mgr@, id@) == s2);
        }
    }
    notify_flag
}

} // verus!
