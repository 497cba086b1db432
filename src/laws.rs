//! What holds of the engine across calls, proved from the step functions that
//! its operations are specified by.
use vstd::prelude::*;
use crate::config::{decimal_u32, offers, ValueModel};
use crate::error::ModelError;
use crate::keys::unexpired;
use crate::model::{
    poll_step, redeem_step, revision_of, update_step, ClientSt, EngineModel, PollModel,
    ValuesModel,
};

verus! {

/// A one-time key opens at most once: once `key` has been redeemed, whatever
/// the outcome, redeeming it again fails with `InvalidKey`.
pub proof fn key_single_use<W>(m: EngineModel<W>, key: Seq<char>, first: u64, second: u64)
    ensures
        redeem_step(redeem_step(m, key, first).0, key, second).1 == Err::<
            (Seq<char>, Option<(W, ValuesModel)>),
            ModelError,
        >(ModelError::InvalidKey),
{
}

/// A live key redeemed once its window has passed fails with `KeyExpired`;
/// one redeemed within the window, even in its last second, opens its
/// session where that session still exists.
pub proof fn key_expiry<W>(m: EngineModel<W>, key: Seq<char>, now: u64)
    requires
        m.keys.keys.contains_key(key),
    ensures
        (now as int) - (m.keys.keys[key].1 as int) >= m.keys.expiration as int ==> redeem_step(
            m,
            key,
            now,
        ).1 == Err::<(Seq<char>, Option<(W, ValuesModel)>), ModelError>(ModelError::KeyExpired),
        (now as int) - (m.keys.keys[key].1 as int) < m.keys.expiration as int
            && m.sessions.contains_key(m.keys.keys[key].0) ==> redeem_step(m, key, now).1 is Ok,
        (now as int) == (m.keys.keys[key].1 as int) + (m.keys.expiration as int) - 1
            && m.sessions.contains_key(m.keys.keys[key].0) ==> redeem_step(m, key, now).1 is Ok,
{
}

/// Every successful submission advances the session's revision by exactly
/// one (below the largest revision, where the counter would wrap).
pub proof fn revision_advances<W>(m: EngineModel<W>, sid: Seq<char>, f: Seq<(Seq<char>, Seq<char>)>)
    requires
        update_step(m, sid, f).1 is Ok,
        revision_of(m.sessions[sid].st) < u32::MAX,
    ensures
        update_step(m, sid, f).0.sessions.contains_key(sid),
        revision_of(update_step(m, sid, f).0.sessions[sid].st) == revision_of(m.sessions[sid].st)
            + 1,
{
}

/// The engine after the submissions `fs` to session `sid`, one after another.
pub open spec fn submit_all<W>(m: EngineModel<W>, sid: Seq<char>, fs: Seq<Seq<(Seq<char>, Seq<char>)>>) -> EngineModel<W>
    decreases fs.len(),
{
    if fs.len() == 0 {
        m
    } else {
        update_step(submit_all(m, sid, fs.drop_last()), sid, fs.last()).0
    }
}

/// Each of the submissions `fs` to `sid` is taken when its turn comes.
pub open spec fn all_taken<W>(m: EngineModel<W>, sid: Seq<char>, fs: Seq<Seq<(Seq<char>, Seq<char>)>>) -> bool {
    forall|i: int| 0 <= i < fs.len() ==> (#[trigger] update_step(submit_all(m, sid, fs.take(i)), sid, fs[i])).1 is Ok
}

/// Over any run of submissions that are all taken, the revision grows by
/// exactly the number of submissions (as long as it stays within `u32`).
pub proof fn revisions_count_submissions<W>(
    m: EngineModel<W>,
    sid: Seq<char>,
    fs: Seq<Seq<(Seq<char>, Seq<char>)>>,
)
    requires
        m.sessions.contains_key(sid),
        all_taken(m, sid, fs),
        revision_of(m.sessions[sid].st) + fs.len() <= u32::MAX,
    ensures
        submit_all(m, sid, fs).sessions.contains_key(sid),
        revision_of(submit_all(m, sid, fs).sessions[sid].st) == revision_of(m.sessions[sid].st)
            + fs.len(),
    decreases fs.len(),
{
    if fs.len() > 0 {
        let d = fs.drop_last();
        assert forall|i: int| 0 <= i < d.len() implies (#[trigger] update_step(
            submit_all(m, sid, d.take(i)),
            sid,
            d[i],
        )).1 is Ok by {
            assert(d.take(i) =~= fs.take(i));
            assert(update_step(submit_all(m, sid, fs.take(i)), sid, fs[i]).1 is Ok);
        }
        revisions_count_submissions(m, sid, d);
        let last = fs.len() - 1;
        assert(fs.take(last) =~= d);
        assert(update_step(submit_all(m, sid, fs.take(last)), sid, fs[last]).1 is Ok);
        revision_advances(submit_all(m, sid, d), sid, fs.last());
    }
}

/// Between submissions, the revision of a session stays put: redeeming any
/// key and any poll keep every session's state, a submission to another
/// session keeps it, and a refused submission changes nothing at all.
pub proof fn other_steps_keep_revisions<W>(
    m: EngineModel<W>,
    sid: Seq<char>,
    other: Seq<char>,
    key: Seq<char>,
    now: u64,
    rev: u32,
    w: W,
    f: Seq<(Seq<char>, Seq<char>)>,
)
    requires
        m.sessions.contains_key(sid),
    ensures
        redeem_step(m, key, now).0.sessions.contains_key(sid),
        redeem_step(m, key, now).0.sessions[sid].st == m.sessions[sid].st,
        poll_step(m, other, rev, w).0.sessions.contains_key(sid),
        poll_step(m, other, rev, w).0.sessions[sid].st == m.sessions[sid].st,
        other != sid ==> update_step(m, other, f).0.sessions.contains_key(sid),
        other != sid ==> update_step(m, other, f).0.sessions[sid].st == m.sessions[sid].st,
        update_step(m, other, f).1 is Err ==> update_step(m, other, f).0 == m,
{
}

/// A poll behind the session's revision is answered at once with the current
/// values and changes nothing; a poll at the revision waits.
pub proof fn poll_behind_or_waits<W>(m: EngineModel<W>, sid: Seq<char>, rev: u32, w: W)
    requires
        m.sessions.contains_key(sid),
    ensures
        rev < revision_of(m.sessions[sid].st) ==> poll_step(m, sid, rev, w).0 == m,
        rev < revision_of(m.sessions[sid].st) ==> poll_step(m, sid, rev, w).1 == PollModel::<
            W,
        >::Ready(ValuesModel { revision: revision_of(m.sessions[sid].st), items: m.sessions[sid].items }),
        rev == revision_of(m.sessions[sid].st) ==> poll_step(m, sid, rev, w).1 is Waiting,
        rev == revision_of(m.sessions[sid].st) ==> poll_step(m, sid, rev, w).0.sessions[sid].waiter
            == Some(w),
{
}

/// A poll that waits at the current revision is woken by the next successful
/// submission, with the revision after it.
pub proof fn wait_until_advance<W>(m: EngineModel<W>, sid: Seq<char>, w: W, f: Seq<(Seq<char>, Seq<char>)>)
    requires
        m.sessions.contains_key(sid),
        update_step(poll_step(m, sid, revision_of(m.sessions[sid].st), w).0, sid, f).1 is Ok,
        revision_of(m.sessions[sid].st) < u32::MAX,
    ensures
        ({
            let m1 = poll_step(m, sid, revision_of(m.sessions[sid].st), w).0;
            match update_step(m1, sid, f).1 {
                Ok(Some((woken, v))) => woken == w && v.revision == revision_of(m.sessions[sid].st)
                    + 1,
                _ => false,
            }
        }),
{
    let m1 = poll_step(m, sid, revision_of(m.sessions[sid].st), w).0;
    assert(m1.sessions[sid].waiter == Some(w));
}

/// A poll at revision zero on a session nobody has submitted to waits, and
/// redeeming the session's key wakes it at once with revision zero and the
/// registered items.
pub proof fn wake_on_login<W>(m: EngineModel<W>, sid: Seq<char>, key: Seq<char>, now: u64, w: W)
    requires
        m.sessions.contains_key(sid),
        m.sessions[sid].st == ClientSt::Created,
        m.keys.keys.contains_key(key),
        m.keys.keys[key].0 == sid,
        unexpired(m.keys.expiration, m.keys.keys[key].1, now),
    ensures
        poll_step(m, sid, 0, w).1 is Waiting,
        redeem_step(poll_step(m, sid, 0, w).0, key, now).1 == Ok::<
            (Seq<char>, Option<(W, ValuesModel)>),
            ModelError,
        >((sid, Some((w, ValuesModel { revision: 0, items: m.sessions[sid].items })))),
{
}

/// Of two polls at the same revision on one session, the second takes the
/// place of the first and hands the first back, to be told it was superseded.
pub proof fn supersession<W>(m: EngineModel<W>, sid: Seq<char>, rev: u32, first: W, second: W)
    requires
        poll_step(m, sid, rev, first).1 is Waiting,
    ensures
        poll_step(poll_step(m, sid, rev, first).0, sid, rev, second).1 == PollModel::<W>::Waiting(
            Some(first),
        ),
{
}

/// An integer item refuses a number outside its bounds and text that is no
/// number; a selection item refuses text that is no option's value.
pub proof fn validation_refuses(v: ValueModel, s: Seq<char>)
    ensures
        match v {
            ValueModel::Integer { min, max, value } => match decimal_u32(s) {
                Some(i) => (i < min || max < i) ==> v.assign(s) is None,
                None => v.assign(s) is None,
            },
            ValueModel::Selection { value, options } => !offers(options, s) ==> v.assign(s) is None,
            _ => true,
        },
{
}

/// A submission that some item refuses leaves the engine as it was.
pub proof fn refused_submission_changes_nothing<W>(
    m: EngineModel<W>,
    sid: Seq<char>,
    f: Seq<(Seq<char>, Seq<char>)>,
)
    requires
        update_step(m, sid, f).1 == Err::<Option<(W, ValuesModel)>, ModelError>(
            ModelError::BadValue,
        ),
    ensures
        update_step(m, sid, f).0 == m,
{
}

} // verus!
