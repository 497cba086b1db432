//! The session engine: configuration sessions with their revision counters
//! and waiting polls, and the one-time keys that open them to a person.
//!
//! The engine decides; the caller acts. A poll that has to wait leaves its
//! waiter (a handle of the caller's choosing, such as the sending half of a
//! one-shot channel) with the session, and the operations that wake it hand
//! it back together with the values to deliver.
use vstd::prelude::*;
use crate::config::{ConfigItem, ItemModel};
use crate::entropy::{encode_url, encodes_bytes, make_rng, random_bytes, SecretRng};
use crate::error::ModelError;
use crate::keys::{unexpired, KeyStorage, KeyStoreModel, KEY_BYTES};
use crate::table::Table;

verus! {

/// Random bytes behind each session secret.
pub const SECRET_BYTES: usize = 64;

/// Fresh secrets drawn before giving up on finding one that is not in use.
pub const SECRET_ATTEMPTS: usize = 10;

/// Seconds for which a one-time key can be redeemed.
pub const KEY_EXPIRATION: u32 = 600;

/// The unguessable token that names a session.
pub struct Secret(String);

impl View for Secret {
    type V = Seq<char>;

    closed spec fn view(&self) -> Seq<char> {
        self.0@
    }
}

impl Clone for Secret {
    fn clone(&self) -> (r: Self)
        ensures
            r@ == self@,
    {
        Secret(self.0.clone())
    }
}

impl Secret {
    /// The secret with the text `s`.
    pub fn new(s: String) -> (r: Self)
        ensures
            r@ == s@,
    {
        Secret(s)
    }

    /// The text of the secret.
    pub fn to_string(&self) -> (r: String)
        ensures
            r@ == self@,
    {
        self.0.clone()
    }

    /// The text of the secret, by reference.
    pub fn as_str(&self) -> (r: &str)
        ensures
            r@ == self@,
    {
        self.0.as_str()
    }
}

/// Where a session stands: nobody has submitted values yet, or the given
/// number of submissions has been made.
#[derive(Clone, Copy, Debug, PartialEq, Eq, Structural)]
pub enum ClientSt {
    Created,
    Submitted(u32),
}

/// The revision of a session in state `st`.
pub open spec fn revision_of(st: ClientSt) -> u32 {
    match st {
        ClientSt::Created => 0,
        ClientSt::Submitted(r) => r,
    }
}

/// The state after one more submission.
pub open spec fn advanced(st: ClientSt) -> ClientSt {
    ClientSt::Submitted((revision_of(st) + 1) as u32)
}

/// The items of `v` as plain data.
pub open spec fn items_model(v: Seq<ConfigItem>) -> Seq<ItemModel> {
    v.map_values(|i: ConfigItem| i@)
}

/// A revision of a session's values.
pub struct Values {
    pub revision: u32,
    pub values: Vec<ConfigItem>,
}

/// A revision of a session's values as plain data.
pub struct ValuesModel {
    pub revision: u32,
    pub items: Seq<ItemModel>,
}

impl View for Values {
    type V = ValuesModel;

    open spec fn view(&self) -> ValuesModel {
        ValuesModel { revision: self.revision, items: items_model(self.values@) }
    }
}

/// A session as plain data: its items, its state, and the poll that waits on
/// it, if any.
pub struct SessionModel<W> {
    pub items: Seq<ItemModel>,
    pub st: ClientSt,
    pub waiter: Option<W>,
}

/// What a poll on session `s` receives.
pub open spec fn current_values<W>(s: SessionModel<W>) -> ValuesModel {
    ValuesModel { revision: revision_of(s.st), items: s.items }
}

/// The engine as plain data: its sessions by secret, and its key store,
/// whose payloads are secrets.
pub struct EngineModel<W> {
    pub sessions: Map<Seq<char>, SessionModel<W>>,
    pub keys: KeyStoreModel<Seq<char>>,
}

/// A waiting poll to be woken, and the values to wake it with.
pub struct Notice<W> {
    pub waiter: W,
    pub values: Values,
}

/// A notice as plain data.
pub open spec fn notice_model<W>(n: Option<Notice<W>>) -> Option<(W, ValuesModel)> {
    match n {
        Some(x) => Some((x.waiter, x.values@)),
        None => None,
    }
}

/// The poll waiting on `s`, if any, to be woken with its current values.
pub open spec fn wake_of<W>(s: SessionModel<W>) -> Option<(W, ValuesModel)> {
    match s.waiter {
        Some(w) => Some((w, current_values(s))),
        None => None,
    }
}

/// What a poll comes to.
pub enum Poll<W> {
    /// The session is past the polled revision: here are its values.
    Ready(Values),
    /// The poll cannot be served.
    Failed(ModelError),
    /// The poll's waiter now waits on the session. The waiter it displaced,
    /// if any, is handed back, to be told that it was superseded.
    Waiting(Option<W>),
}

/// A poll's outcome as plain data.
pub enum PollModel<W> {
    Ready(ValuesModel),
    Failed(ModelError),
    Waiting(Option<W>),
}

impl<W> View for Poll<W> {
    type V = PollModel<W>;

    open spec fn view(&self) -> PollModel<W> {
        match self {
            Poll::Ready(v) => PollModel::Ready(v@),
            Poll::Failed(e) => PollModel::Failed(*e),
            Poll::Waiting(w) => PollModel::Waiting(*w),
        }
    }
}

/// Submitted fields (name, text) as plain data.
pub open spec fn fields_model(f: Seq<(String, String)>) -> Seq<(Seq<char>, Seq<char>)> {
    f.map_values(|p: (String, String)| (p.0@, p.1@))
}

/// The text submitted for the field `name`; where a name comes more than
/// once, the last one counts.
pub open spec fn field_for(f: Seq<(Seq<char>, Seq<char>)>, name: Seq<char>) -> Option<Seq<char>>
    decreases f.len(),
{
    if f.len() == 0 {
        None
    } else if f.last().0 == name {
        Some(f.last().1)
    } else {
        field_for(f.drop_last(), name)
    }
}

/// The text submitted for `item` is refused by its rule.
pub open spec fn refuses(item: ItemModel, f: Seq<(Seq<char>, Seq<char>)>) -> bool {
    match field_for(f, item.name) {
        Some(v) => item.value.assign(v) is None,
        None => false,
    }
}

/// `item` after the submission `f`: its value is written where `f` has a
/// field of its name, and left as it was otherwise.
pub open spec fn apply_fields(item: ItemModel, f: Seq<(Seq<char>, Seq<char>)>) -> ItemModel {
    match field_for(f, item.name) {
        Some(v) => match item.value.assign(v) {
            Some(nv) => ItemModel { name: item.name, title: item.title, value: nv },
            None => item,
        },
        None => item,
    }
}

/// Redeeming `key` at time `now`: the key leaves the store whatever the
/// outcome. Where it was live and unexpired and its session still exists,
/// the secret comes back, and the poll waiting on the session (if any) is
/// woken with the session's values although the revision did not change.
pub open spec fn redeem_step<W>(m: EngineModel<W>, key: Seq<char>, now: u64) -> (
    EngineModel<W>,
    Result<(Seq<char>, Option<(W, ValuesModel)>), ModelError>,
) {
    let keys = KeyStoreModel { expiration: m.keys.expiration, keys: m.keys.keys.remove(key) };
    let rest = EngineModel { sessions: m.sessions, keys };
    if !m.keys.keys.contains_key(key) {
        (rest, Err(ModelError::InvalidKey))
    } else if !unexpired(m.keys.expiration, m.keys.keys[key].1, now) {
        (rest, Err(ModelError::KeyExpired))
    } else {
        let sid = m.keys.keys[key].0;
        if !m.sessions.contains_key(sid) {
            (rest, Err(ModelError::SessionExpired))
        } else {
            let s = m.sessions[sid];
            let quiet = SessionModel { items: s.items, st: s.st, waiter: None };
            (EngineModel { sessions: m.sessions.insert(sid, quiet), keys }, Ok((sid, wake_of(s))))
        }
    }
}

/// Polling session `sid` at revision `rev` with the waiter `w`: values at
/// once where the session is past `rev`; otherwise, where the session is at
/// `rev`, `w` waits on it in place of any earlier waiter, which is handed
/// back. An unknown session and a revision ahead of the session fail.
pub open spec fn poll_step<W>(m: EngineModel<W>, sid: Seq<char>, rev: u32, w: W) -> (
    EngineModel<W>,
    PollModel<W>,
) {
    if !m.sessions.contains_key(sid) {
        (m, PollModel::Failed(ModelError::NotFound))
    } else {
        let s = m.sessions[sid];
        if rev < revision_of(s.st) {
            (m, PollModel::Ready(current_values(s)))
        } else if rev == revision_of(s.st) {
            let waiting = SessionModel { items: s.items, st: s.st, waiter: Some(w) };
            (
                EngineModel { sessions: m.sessions.insert(sid, waiting), keys: m.keys },
                PollModel::Waiting(s.waiter),
            )
        } else {
            (m, PollModel::Failed(ModelError::FutureRevision))
        }
    }
}

/// Submitting the fields `f` to session `sid`. Nothing changes where the
/// session is unknown or where some item refuses the text submitted for it.
/// Otherwise every item with a submitted field takes its text, the others
/// stay as they were, the revision advances by one, and the waiting poll (if
/// any) is woken with the new values.
pub open spec fn update_step<W>(m: EngineModel<W>, sid: Seq<char>, f: Seq<(Seq<char>, Seq<char>)>) -> (
    EngineModel<W>,
    Result<Option<(W, ValuesModel)>, ModelError>,
) {
    if !m.sessions.contains_key(sid) {
        (m, Err(ModelError::InvalidSession))
    } else {
        let s = m.sessions[sid];
        if exists|i: int| 0 <= i < s.items.len() && refuses(#[trigger] s.items[i], f) {
            (m, Err(ModelError::BadValue))
        } else {
            let next = SessionModel {
                items: s.items.map_values(|it: ItemModel| apply_fields(it, f)),
                st: advanced(s.st),
                waiter: s.waiter,
            };
            let quiet = SessionModel { items: next.items, st: next.st, waiter: None };
            (
                EngineModel { sessions: m.sessions.insert(sid, quiet), keys: m.keys },
                Ok(wake_of(next)),
            )
        }
    }
}

/// What registering under a given secret comes to.
pub enum Registration {
    /// The session is registered: its one-time key and its secret.
    Opened(String, Secret),
    /// The secret names a session already; here are the items back.
    SecretInUse(Vec<ConfigItem>),
    /// No unused one-time key could be drawn.
    KeysExhausted,
}

/// A session's record.
struct Client<W> {
    settings: Vec<ConfigItem>,
    st: ClientSt,
    sender: Option<W>,
}

impl<W> View for Client<W> {
    type V = SessionModel<W>;

    closed spec fn view(&self) -> SessionModel<W> {
        SessionModel { items: items_model(self.settings@), st: self.st, waiter: self.sender }
    }
}

/// A copy of `v` with the same items.
fn copy_items(v: &Vec<ConfigItem>) -> (r: Vec<ConfigItem>)
    ensures
        items_model(r@) == items_model(v@),
{
    let r = v.clone();
    proof {
        assert forall|i: int| 0 <= i < r@.len() implies r@[i]@ == v@[i]@ by {
            assert(cloned::<ConfigItem>(v[i], r[i]));
        }
        assert(items_model(r@) =~= items_model(v@));
    }
    r
}

impl<W> Client<W> {
    fn new(settings: Vec<ConfigItem>) -> (r: Self)
        ensures
            r@ == (SessionModel::<W> {
                items: items_model(settings@),
                st: ClientSt::Created,
                waiter: None,
            }),
    {
        Client { settings, st: ClientSt::Created, sender: None }
    }

    fn current_values(&self) -> (r: Values)
        ensures
            r@ == current_values(self@),
    {
        let revision = match self.st {
            ClientSt::Created => 0,
            ClientSt::Submitted(r) => r,
        };
        Values { revision, values: copy_items(&self.settings) }
    }

    /// Takes the waiting poll, if any, with the values to wake it with.
    fn send(&mut self) -> (r: Option<Notice<W>>)
        ensures
            notice_model(r) == wake_of(old(self)@),
            final(self)@ == (SessionModel { waiter: None, ..old(self)@ }),
    {
        match self.sender.take() {
            Some(w) => Some(Notice { waiter: w, values: self.current_values() }),
            None => None,
        }
    }

    /// Installs `w` as the waiting poll and hands back the one it displaces.
    fn get_receiver(&mut self, w: W) -> (r: Option<W>)
        ensures
            r == old(self)@.waiter,
            final(self)@ == (SessionModel { waiter: Some(w), ..old(self)@ }),
    {
        let prev = self.sender.take();
        self.sender = Some(w);
        prev
    }

    fn update_rev(&mut self)
        requires
            revision_of(old(self).st) < u32::MAX,
        ensures
            final(self)@ == (SessionModel { st: advanced(old(self)@.st), ..old(self)@ }),
    {
        self.st = match self.st {
            ClientSt::Created => ClientSt::Submitted(1),
            ClientSt::Submitted(r) => ClientSt::Submitted(r + 1),
        };
    }
}

/// Where `f` has a field named `name`, the index of the last such field.
fn find_field(f: &Vec<(String, String)>, name: &String) -> (r: Option<usize>)
    ensures
        match r {
            Some(j) => j < f@.len() && field_for(fields_model(f@), name@) == Some(f@[j as int].1@),
            None => field_for(fields_model(f@), name@) is None,
        },
{
    let ghost fm = fields_model(f@);
    let mut found: Option<usize> = None;
    let mut i: usize = 0;
    while i < f.len()
        invariant
            i <= f@.len(),
            fm == fields_model(f@),
            match found {
                Some(j) => j < i && field_for(fm.subrange(0, i as int), name@) == Some(f@[j as int].1@),
                None => field_for(fm.subrange(0, i as int), name@) is None,
            },
        decreases f@.len() - i,
    {
        proof {
            assert(fm.subrange(0, i + 1).drop_last() =~= fm.subrange(0, i as int));
        }
        if f[i].0 == *name {
            found = Some(i);
        }
        i = i + 1;
    }
    proof {
        assert(fm.subrange(0, f@.len() as int) =~= fm);
    }
    found
}

/// The configuration sessions of devices, and the one-time keys that open
/// them to a person.
pub struct Model<W> {
    clients: Table<Client<W>>,
    keys: KeyStorage<Secret>,
    rng: SecretRng,
}

impl<W> View for Model<W> {
    type V = EngineModel<W>;

    closed spec fn view(&self) -> EngineModel<W> {
        EngineModel { sessions: self.clients@, keys: self.keys@ }
    }
}

impl<W> Model<W> {
    /// An engine with no sessions and no keys, whose keys live for
    /// `KEY_EXPIRATION` seconds.
    pub fn new() -> (r: Self)
        ensures
            r@.sessions == Map::<Seq<char>, SessionModel<W>>::empty(),
            r@.keys.keys == Map::<Seq<char>, (Seq<char>, u64)>::empty(),
            r@.keys.expiration == KEY_EXPIRATION,
    {
        Model { clients: Table::new(), keys: KeyStorage::new(KEY_EXPIRATION), rng: make_rng() }
    }

    /// A freshly drawn secret; whether it is in use is for the caller to see.
    fn random_secret(&mut self) -> (r: Secret)
        ensures
            final(self)@ == old(self)@,
            encodes_bytes(r@, SECRET_BYTES as nat),
            r@.len() == 86,
    {
        let bytes = random_bytes(&mut self.rng, SECRET_BYTES);
        Secret(encode_url(&bytes))
    }

    /// Registers a session with the items `settings` under `secret`, in state
    /// `Created` with no waiting poll, and issues a one-time key for it at
    /// time `now`. Where `secret` is in use, nothing changes and the items
    /// are handed back; where no unused key could be drawn, nothing changes.
    pub fn register_under(&mut self, secret: Secret, settings: Vec<ConfigItem>, now: u64) -> (r:
        Registration)
        ensures
            old(self)@.sessions.contains_key(secret@) <==> r is SecretInUse,
            !old(self)@.sessions.contains_key(secret@) && old(self)@.keys.keys.dom().is_empty()
                ==> r is Opened,
            match r {
                Registration::Opened(k, s) => {
                    &&& s@ == secret@
                    &&& final(self)@.sessions == old(self)@.sessions.insert(
                        s@,
                        SessionModel {
                            items: items_model(settings@),
                            st: ClientSt::Created,
                            waiter: None,
                        },
                    )
                    &&& !old(self)@.keys.keys.contains_key(k@)
                    &&& final(self)@.keys.keys == old(self)@.keys.keys.insert(k@, (s@, now))
                    &&& final(self)@.keys.expiration == old(self)@.keys.expiration
                    &&& encodes_bytes(k@, KEY_BYTES as nat)
                    &&& k@.len() == 6
                },
                Registration::SecretInUse(back) => back == settings && final(self)@ == old(self)@,
                Registration::KeysExhausted => final(self)@ == old(self)@,
            },
    {
        if self.clients.contains(&secret.0) {
            return Registration::SecretInUse(settings);
        }
        let key = match self.keys.new_key_at(secret.clone(), now) {
            Ok(k) => k,
            Err(_) => {
                return Registration::KeysExhausted;
            },
        };
        self.clients.insert(secret.0.clone(), Client::new(settings));
        Registration::Opened(key, secret)
    }

    /// Registers a session with the items `settings`, in state `Created`
    /// with no waiting poll, under a fresh secret (the URL-safe base64 text
    /// of `SECRET_BYTES` random bytes), and issues a one-time key for it at
    /// time `now`. Returns the key and the secret. Fails with `Exhausted`,
    /// changing nothing, where no unused secret or key could be drawn; an
    /// engine with no sessions and no keys always succeeds.
    pub fn new_client_at(&mut self, settings: Vec<ConfigItem>, now: u64) -> (r: Result<
        (String, Secret),
        ModelError,
    >)
        ensures
            old(self)@.sessions.dom().is_empty() && old(self)@.keys.keys.dom().is_empty() ==> r is Ok,
            match r {
                Ok((k, s)) => {
                    &&& !old(self)@.sessions.contains_key(s@)
                    &&& final(self)@.sessions == old(self)@.sessions.insert(
                        s@,
                        SessionModel {
                            items: items_model(settings@),
                            st: ClientSt::Created,
                            waiter: None,
                        },
                    )
                    &&& !old(self)@.keys.keys.contains_key(k@)
                    &&& final(self)@.keys.keys == old(self)@.keys.keys.insert(k@, (s@, now))
                    &&& final(self)@.keys.expiration == old(self)@.keys.expiration
                    &&& encodes_bytes(s@, SECRET_BYTES as nat)
                    &&& s@.len() == 86
                    &&& encodes_bytes(k@, KEY_BYTES as nat)
                    &&& k@.len() == 6
                },
                Err(e) => e == ModelError::Exhausted && final(self)@ == old(self)@,
            },
    {
        let mut held = settings;
        let mut attempt: usize = 0;
        while attempt < SECRET_ATTEMPTS
            invariant
                held == settings,
                self@ == old(self)@,
                old(self)@.sessions.dom().is_empty() ==> attempt == 0,
            decreases SECRET_ATTEMPTS - attempt,
        {
            let secret = self.random_secret();
            let ghost drawn = secret@;
            proof {
                if old(self)@.sessions.dom().is_empty() {
                    assert(!old(self)@.sessions.dom().contains(drawn));
                }
            }
            match self.register_under(secret, held, now) {
                Registration::Opened(k, s) => {
                    return Ok((k, s));
                },
                Registration::SecretInUse(back) => {
                    held = back;
                },
                Registration::KeysExhausted => {
                    return Err(ModelError::Exhausted);
                },
            }
            attempt = attempt + 1;
        }
        Err(ModelError::Exhausted)
    }

    /// Registers a session with the items `settings` as `new_client_at`
    /// does, with its key issued now.
    pub fn new_client(&mut self, settings: Vec<ConfigItem>) -> (r: Result<(String, Secret), ModelError>)
        ensures
            old(self)@.sessions.dom().is_empty() && old(self)@.keys.keys.dom().is_empty() ==> r is Ok,
            match r {
                Ok((k, s)) => {
                    &&& !old(self)@.sessions.contains_key(s@)
                    &&& final(self)@.sessions == old(self)@.sessions.insert(
                        s@,
                        SessionModel {
                            items: items_model(settings@),
                            st: ClientSt::Created,
                            waiter: None,
                        },
                    )
                    &&& !old(self)@.keys.keys.contains_key(k@)
                    &&& exists|t: u64|
                        final(self)@.keys.keys == old(self)@.keys.keys.insert(k@, (s@, t))
                    &&& final(self)@.keys.expiration == old(self)@.keys.expiration
                    &&& encodes_bytes(s@, SECRET_BYTES as nat)
                    &&& s@.len() == 86
                    &&& encodes_bytes(k@, KEY_BYTES as nat)
                    &&& k@.len() == 6
                },
                Err(e) => e == ModelError::Exhausted && final(self)@ == old(self)@,
            },
    {
        let now = crate::entropy::unix_now();
        self.new_client_at(settings, now)
    }

    /// Deletes the session `sid`; a poll waiting on it is dropped.
    pub fn remove_client(&mut self, sid: &Secret) -> (r: Result<(), ModelError>)
        ensures
            r is Ok <==> old(self)@.sessions.contains_key(sid@),
            r matches Err(e) ==> e == ModelError::NotFound,
            final(self)@.sessions == old(self)@.sessions.remove(sid@),
            final(self)@.keys == old(self)@.keys,
    {
        match self.clients.remove(&sid.0) {
            Some(_) => Ok(()),
            None => Err(ModelError::NotFound),
        }
    }

    /// The revision of the session `sid`, if it exists.
    pub fn revision(&self, sid: &Secret) -> (r: Option<u32>)
        ensures
            r is Some <==> self@.sessions.contains_key(sid@),
            r matches Some(n) ==> n == revision_of(self@.sessions[sid@].st),
    {
        match self.clients.get(&sid.0) {
            Some(c) => Some(
                match c.st {
                    ClientSt::Created => 0,
                    ClientSt::Submitted(n) => n,
                },
            ),
            None => None,
        }
    }

    /// A long poll on the session `sid` by a device that knows `revision`;
    /// `waiter` is what wakes the device later, if it has to wait.
    pub fn values(&mut self, sid: &Secret, revision: u32, waiter: W) -> (r: Poll<W>)
        ensures
            (final(self)@, r@) == poll_step(old(self)@, sid@, revision, waiter),
    {
        let key = sid.0.clone();
        let mut client = match self.clients.remove(&key) {
            Some(c) => c,
            None => {
                proof {
                    assert(self@.sessions =~= old(self)@.sessions);
                }
                return Poll::Failed(ModelError::NotFound);
            },
        };
        let current = match client.st {
            ClientSt::Created => 0,
            ClientSt::Submitted(n) => n,
        };
        let r = if revision < current {
            Poll::Ready(client.current_values())
        } else if revision == current {
            Poll::Waiting(client.get_receiver(waiter))
        } else {
            Poll::Failed(ModelError::FutureRevision)
        };
        self.clients.insert(key, client);
        proof {
            let s0 = old(self)@.sessions[sid@];
            if revision == current {
                assert(self@.sessions =~= old(self)@.sessions.insert(
                    sid@,
                    SessionModel { items: s0.items, st: s0.st, waiter: Some(waiter) },
                ));
            } else {
                assert(self@.sessions =~= old(self)@.sessions);
            }
        }
        r
    }

    /// Redeems the one-time key `key` at time `now`, and wakes the poll
    /// waiting on its session, if any.
    pub fn auth_at(&mut self, key: &str, now: u64) -> (r: Result<(Secret, Option<Notice<W>>), ModelError>)
        ensures
            (final(self)@, match r {
                Ok((s, n)) => Ok((s@, notice_model(n))),
                Err(e) => Err(e),
            }) == redeem_step(old(self)@, key@, now),
    {
        let secret = match self.keys.take_data_at(key, now) {
            Ok(s) => s,
            Err(e) => {
                return Err(e);
            },
        };
        let mut client = match self.clients.remove(&secret.0) {
            Some(c) => c,
            None => {
                proof {
                    assert(self@.sessions =~= old(self)@.sessions);
                }
                return Err(ModelError::SessionExpired);
            },
        };
        let notice = client.send();
        self.clients.insert(secret.0.clone(), client);
        proof {
            let s0 = old(self)@.sessions[secret@];
            assert(self@.sessions =~= old(self)@.sessions.insert(
                secret@,
                SessionModel { items: s0.items, st: s0.st, waiter: None },
            ));
        }
        Ok((secret, notice))
    }

    /// Redeems the one-time key `key` now, and wakes the poll waiting on its
    /// session, if any.
    pub fn auth(&mut self, key: &str) -> (r: Result<(Secret, Option<Notice<W>>), ModelError>)
        ensures
            exists|now: u64|
                (final(self)@, match r {
                    Ok((s, n)) => Ok((s@, notice_model(n))),
                    Err(e) => Err(e),
                }) == redeem_step(old(self)@, key@, now),
    {
        let now = crate::entropy::unix_now();
        self.auth_at(key, now)
    }

    /// The items of the session `s`.
    pub fn settings(&self, s: &Secret) -> (r: Result<&Vec<ConfigItem>, ModelError>)
        ensures
            r is Ok <==> self@.sessions.contains_key(s@),
            r matches Ok(v) ==> items_model(v@) == self@.sessions[s@].items,
            r matches Err(e) ==> e == ModelError::InvalidSession,
    {
        match self.clients.get(&s.0) {
            Some(c) => Ok(&c.settings),
            None => Err(ModelError::InvalidSession),
        }
    }

    /// Submits the fields `values` (name, text) to the session `s`. The
    /// submission is taken whole or not at all: where some item refuses the
    /// text submitted for it, nothing changes. Items without a field keep
    /// their values.
    pub fn update_settings(&mut self, s: &Secret, values: &Vec<(String, String)>) -> (r: Result<
        Option<Notice<W>>,
        ModelError,
    >)
        requires
            old(self)@.sessions.contains_key(s@) ==> revision_of(old(self)@.sessions[s@].st)
                < u32::MAX,
        ensures
            (final(self)@, match r {
                Ok(n) => Ok(notice_model(n)),
                Err(e) => Err(e),
            }) == update_step(old(self)@, s@, fields_model(values@)),
    {
        let ghost f = fields_model(values@);
        let key = s.0.clone();
        let mut client = match self.clients.remove(&key) {
            Some(c) => c,
            None => {
                proof {
                    assert(self@.sessions =~= old(self)@.sessions);
                }
                return Err(ModelError::InvalidSession);
            },
        };
        let ghost orig = client@;
        let ghost rest = self@;
        assert(rest.sessions == old(self)@.sessions.remove(s@));
        assert(orig == old(self)@.sessions[s@]);
        let n = client.settings.len();
        let mut i: usize = 0;
        while i < n
            invariant
                self@ == rest,
                rest.sessions == old(self)@.sessions.remove(s@),
                rest.keys == old(self)@.keys,
                old(self)@.sessions.contains_key(s@),
                orig == old(self)@.sessions[s@],
                key@ == s@,
                n == client.settings@.len(),
                i <= n,
                client@ == orig,
                f == fields_model(values@),
                forall|j: int| 0 <= j < i ==> !refuses(#[trigger] orig.items[j], f),
            decreases n - i,
        {
            let item = &client.settings[i];
            match find_field(values, &item.name) {
                Some(j) => {
                    if !item.value.accepts(values[j].1.as_str()) {
                        proof {
                            assert(orig.items[i as int] == item@);
                            assert(refuses(orig.items[i as int], f));
                        }
                        self.clients.insert(key, client);
                        proof {
                            assert(self@.sessions =~= old(self)@.sessions);
                        }
                        return Err(ModelError::BadValue);
                    }
                },
                None => {},
            }
            proof {
                assert(orig.items[i as int] == item@);
            }
            i = i + 1;
        }
        let mut i: usize = 0;
        while i < n
            invariant
                n == client.settings@.len(),
                n == orig.items.len(),
                i <= n,
                client.st == orig.st,
                client.sender == orig.waiter,
                f == fields_model(values@),
                forall|j: int| 0 <= j < n ==> !refuses(#[trigger] orig.items[j], f),
                forall|j: int| 0 <= j < i ==> (#[trigger] client.settings@[j])@ == apply_fields(orig.items[j], f),
                forall|j: int| i <= j < n ==> (#[trigger] client.settings@[j])@ == orig.items[j],
                self@ == rest,
                rest.sessions == old(self)@.sessions.remove(s@),
                rest.keys == old(self)@.keys,
                old(self)@.sessions.contains_key(s@),
                orig == old(self)@.sessions[s@],
                key@ == s@,
                revision_of(orig.st) < u32::MAX,
            decreases n - i,
        {
            match find_field(values, &client.settings[i].name) {
                Some(j) => {
                    client.settings[i].value.try_set_value(values[j].1.as_str());
                    proof {
                        assert(!refuses(orig.items[i as int], f));
                    }
                },
                None => {},
            }
            i = i + 1;
        }
        proof {
            assert(client@.items =~= orig.items.map_values(|it: ItemModel| apply_fields(it, f)));
        }
        client.update_rev();
        let notice = client.send();
        self.clients.insert(key, client);
        proof {
            let next_items = orig.items.map_values(|it: ItemModel| apply_fields(it, f));
            assert(!(exists|j: int| 0 <= j < orig.items.len() && refuses(#[trigger] orig.items[j], f)));
            assert(self@.sessions =~= old(self)@.sessions.insert(
                s@,
                SessionModel { items: next_items, st: advanced(orig.st), waiter: None },
            ));
        }
        Ok(notice)
    }
}

} // verus!
