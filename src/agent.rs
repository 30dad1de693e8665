//! The agent core: the key store and the dispatch of request frames to it.
//!
//! A request is answered in one step unless it needs outside work. Adding a
//! new key asks the caller to persist the configuration; a signature asks the
//! caller to obtain the user's approval. The caller does that work without
//! holding the agent, then finishes the request with `add_reply` or
//! `SignRequest::respond`.

use vstd::prelude::*;

use crate::config::Config;
use crate::key::{
    factors_usable, is_valid_rsa, key_pair_of, wire_parts_fit, name_bytes, parse_key_pair, parse_public_blob, pkcs1_signature,
    public_blob, digest_for, signature_blob_of, KeyError, KeyPair, KeyPairModel, PublicKey,
    RsaPublic,
};
use crate::wire::{
    mpint_body, parse_string, parse_u32, ssh_string, strip_leading_zeros, u32_bytes, write_string,
    write_u32, Reader,
};

verus! {

pub const SSH_AGENTC_REQUEST_IDENTITIES: u8 = 11;

pub const SSH_AGENTC_SIGN_REQUEST: u8 = 13;

pub const SSH_AGENTC_ADD_IDENTITY: u8 = 17;

pub const SSH_AGENT_FAILURE: u8 = 5;

pub const SSH_AGENT_SUCCESS: u8 = 6;

pub const SSH_AGENT_IDENTITIES_ANSWER: u8 = 12;

pub const SSH_AGENT_SIGN_RESPONSE: u8 = 14;

/// A human description of the process that sent a request.
pub struct RequesterInfo {
    /// One line: executable name, file description, window title.
    pub description_short: String,
    /// One paragraph per process, from the requester up its ancestors.
    pub description_long: String,
}

/// Where a request came from.
pub struct RequestInfo {
    /// The transport: `"Unix"`, `"Pipe"` or `"Pageant"`.
    pub channel: &'static str,
    pub requester: Option<RequesterInfo>,
}

/// The one-byte failure body.
pub open spec fn failure() -> Seq<u8> {
    seq![SSH_AGENT_FAILURE]
}

/// Some key in `keys` has the public key `pk`.
pub open spec fn has_key(keys: Seq<KeyPairModel>, pk: RsaPublic) -> bool {
    exists|i: int| 0 <= i < keys.len() && keys[i].public == pk
}

/// `i` is the first position in `keys` whose public key is `pk`.
pub open spec fn is_first_match(keys: Seq<KeyPairModel>, pk: RsaPublic, i: int) -> bool {
    &&& 0 <= i < keys.len()
    &&& keys[i].public == pk
    &&& forall|j: int| 0 <= j < i ==> keys[j].public != pk
}

/// The key list after adding `kp`: appended unless its public key is
/// already there.
pub open spec fn store_add(keys: Seq<KeyPairModel>, kp: KeyPairModel) -> Seq<KeyPairModel> {
    if has_key(keys, kp.public) {
        keys
    } else {
        keys.push(kp)
    }
}

/// One key in an identities answer: its public blob and its comment.
#[verifier::opaque]
pub open spec fn identity_entry(k: KeyPairModel) -> Seq<u8> {
    ssh_string(public_blob(k.public)) + ssh_string(name_bytes(k))
}

/// The entries of `keys`, in order.
pub open spec fn identity_list(keys: Seq<KeyPairModel>) -> Seq<u8>
    decreases keys.len(),
{
    if keys.len() == 0 {
        Seq::empty()
    } else {
        identity_list(keys.drop_last()) + identity_entry(keys.last())
    }
}

/// `IDENTITIES_ANSWER`, the key count, then an entry per key.
pub open spec fn identities_answer_of(keys: Seq<KeyPairModel>) -> Seq<u8> {
    seq![SSH_AGENT_IDENTITIES_ANSWER] + u32_bytes(keys.len() as u32) + identity_list(keys)
}

/// The reply to `REQUEST_IDENTITIES`: the answer, or a failure when the
/// answer is too long for a frame.
pub open spec fn identities_reply(keys: Seq<KeyPairModel>) -> Seq<u8> {
    if identities_answer_of(keys).len() <= u32::MAX {
        identities_answer_of(keys)
    } else {
        failure()
    }
}

/// Reads the body of `SIGN_REQUEST`: `string public_blob · string message ·
/// u32 flags`.
pub open spec fn parse_sign_request(s: Seq<u8>) -> Option<(Seq<u8>, Seq<u8>, u32)> {
    match parse_string(s) {
        None => None,
        Some((blob, s1)) => match parse_string(s1) {
            None => None,
            Some((msg, s2)) => match parse_u32(s2) {
                None => None,
                Some((flags, _)) => Some((blob, msg, flags)),
            },
        },
    }
}

/// `SIGN_RESPONSE` with the signature blob for `raw`.
pub open spec fn sign_response_of(flags: u32, raw: Seq<u8>) -> Seq<u8> {
    seq![SSH_AGENT_SIGN_RESPONSE] + ssh_string(signature_blob_of(flags, raw))
}

/// What a request needs next.
pub enum Dispatch {
    /// The response body is ready.
    Reply(Vec<u8>),
    /// A new key was appended to the store: persist the configuration, then
    /// answer with `add_reply`.
    Persist,
    /// The user must approve a signature: ask, then answer with
    /// `SignRequest::respond`.
    Confirm(SignRequest),
}

/// `r` is a ready reply with the body `body`.
pub open spec fn replies(r: Dispatch, body: Seq<u8>) -> bool {
    r matches Dispatch::Reply(b) && b@ == body
}

/// A signature that waits for the user's approval. It holds its own copy of
/// the key pair, so that nothing of the agent is held while the user decides.
pub struct SignRequest {
    pub key_pair: KeyPair,
    pub msg: Vec<u8>,
    pub flags: u32,
}

/// What `SIGN_REQUEST` with the body `s` leads to, against `keys`.
pub open spec fn sign_dispatch(keys: Seq<KeyPairModel>, s: Seq<u8>, r: Dispatch) -> bool {
    match parse_sign_request(s) {
        None => replies(r, failure()),
        Some((blob, msg, flags)) => match parse_public_blob(blob) {
            Err(_) => replies(r, failure()),
            Ok(pk) => if has_key(keys, pk) {
                &&& r matches Dispatch::Confirm(q)
                &&& q.msg@ == msg
                &&& q.flags == flags
                &&& exists|i: int| is_first_match(keys, pk, i) && q.key_pair@ == keys[i]
            } else {
                replies(r, failure())
            },
        },
    }
}

/// What `ADD_IDENTITY` with the body `s` leads to: the dispatch `r` and the
/// key list `after`, from the key list `keys`.
pub open spec fn add_dispatch(
    keys: Seq<KeyPairModel>,
    s: Seq<u8>,
    r: Dispatch,
    after: Seq<KeyPairModel>,
) -> bool {
    match parse_key_pair(s) {
        Err(_) => replies(r, failure()) && after == keys,
        Ok((w, name, _)) => if !wire_parts_fit(w) || !factors_usable(w) {
            replies(r, failure()) && after == keys
        } else {
            let kp = key_pair_of(w, name);
            if has_key(keys, kp.public) {
                replies(r, seq![SSH_AGENT_SUCCESS]) && after == keys
            } else {
                r is Persist && after == keys.push(kp)
            }
        },
    }
}

/// Each entry is at least one byte long, so the list is at least as long as
/// the key count.
pub proof fn lemma_identity_list_len(keys: Seq<KeyPairModel>)
    ensures
        identity_list(keys).len() >= keys.len(),
    decreases keys.len(),
{
    reveal(identity_entry);
    if keys.len() > 0 {
        lemma_identity_list_len(keys.drop_last());
    }
}

/// The entries of a prefix are no longer than the entries of the whole.
pub proof fn lemma_identity_list_prefix(keys: Seq<KeyPairModel>, k: int)
    requires
        0 <= k <= keys.len(),
    ensures
        identity_list(keys.take(k)).len() <= identity_list(keys).len(),
    decreases keys.len(),
{
    if k == keys.len() {
        assert(keys.take(k) =~= keys);
    } else {
        lemma_identity_list_prefix(keys.drop_last(), k);
        assert(keys.drop_last().take(k) =~= keys.take(k));
    }
}

/// The public keys of `keys`, in order.
pub open spec fn public_keys(keys: Seq<KeyPairModel>) -> Seq<RsaPublic> {
    keys.map_values(|k: KeyPairModel| k.public)
}

/// The key list after adding each of `added` in turn to `keys`.
pub open spec fn store_after(keys: Seq<KeyPairModel>, added: Seq<KeyPairModel>) -> Seq<KeyPairModel>
    decreases added.len(),
{
    if added.len() == 0 {
        keys
    } else {
        store_add(store_after(keys, added.drop_last()), added.last())
    }
}

/// Each distinct element of `pks` once, in the order of its first appearance.
pub open spec fn first_appearances(pks: Seq<RsaPublic>) -> Seq<RsaPublic>
    decreases pks.len(),
{
    if pks.len() == 0 {
        Seq::empty()
    } else {
        let prev = first_appearances(pks.drop_last());
        if prev.contains(pks.last()) {
            prev
        } else {
            prev.push(pks.last())
        }
    }
}

/// The first appearances hold each distinct element exactly once.
pub proof fn lemma_first_appearances(pks: Seq<RsaPublic>)
    ensures
        first_appearances(pks).no_duplicates(),
        first_appearances(pks).to_set() == pks.to_set(),
    decreases pks.len(),
{
    if pks.len() > 0 {
        let init = pks.drop_last();
        let x = pks.last();
        let prev = first_appearances(init);
        lemma_first_appearances(init);
        assert(pks =~= init.push(x));
        init.lemma_push_to_set_commute(x);
        if prev.contains(x) {
            assert(prev.to_set().contains(x));
            assert(pks.to_set() =~= prev.to_set());
        } else {
            prev.lemma_push_to_set_commute(x);
            let next = prev.push(x);
            assert forall|i: int, j: int| 0 <= i < next.len() && 0 <= j < next.len() && i != j
                implies next[i] != next[j] by {
                if i == prev.len() as int {
                    assert(prev[j] == next[j]);
                } else if j == prev.len() as int {
                    assert(prev[i] == next[i]);
                }
            }
        }
    }
}

/// Listing the identities after adding the key pairs `added` to an empty
/// store gives each distinct public key once, in the order of its first
/// addition: as many keys as there are distinct public keys among `added`.
pub proof fn lemma_identities_after_adds(added: Seq<KeyPairModel>)
    ensures
        public_keys(store_after(Seq::empty(), added)) == first_appearances(public_keys(added)),
        store_after(Seq::empty(), added).len() == public_keys(added).to_set().len(),
    decreases added.len(),
{
    if added.len() > 0 {
        let init = added.drop_last();
        let x = added.last();
        lemma_identities_after_adds(init);
        let prev = store_after(Seq::empty(), init);
        assert(public_keys(init) =~= public_keys(added).drop_last());
        if has_key(prev, x.public) {
            let i = choose|i: int| 0 <= i < prev.len() && prev[i].public == x.public;
            assert(public_keys(prev)[i] == x.public);
        } else {
            assert(!public_keys(prev).contains(x.public));
            assert(public_keys(prev.push(x)) =~= public_keys(prev).push(x.public));
        }
    }
    lemma_first_appearances(public_keys(added));
    first_appearances(public_keys(added)).unique_seq_to_set();
}

/// The key pair that an `ADD_IDENTITY` body carries, when it parses.
pub open spec fn added_key(s: Seq<u8>) -> KeyPairModel {
    match parse_key_pair(s) {
        Ok((w, name, _)) => key_pair_of(w, name),
        Err(_) => arbitrary(),
    }
}

/// `ADD_IDENTITY` succeeded: the key was appended (and then persisted), or
/// it was held already.
pub open spec fn add_succeeded(r: Dispatch) -> bool {
    r is Persist || replies(r, seq![SSH_AGENT_SUCCESS])
}

/// A run of successful `ADD_IDENTITY` requests, from the key list
/// `states[0]` through `states[i + 1]` after the request body `bodies[i]`,
/// leaves the key list that adding their key pairs one after another gives.
/// From an empty store, listing the identities then gives each distinct
/// public key once, in the order of its first addition.
pub proof fn lemma_add_requests(
    states: Seq<Seq<KeyPairModel>>,
    bodies: Seq<Seq<u8>>,
    results: Seq<Dispatch>,
)
    requires
        states.len() == bodies.len() + 1,
        results.len() == bodies.len(),
        forall|i: int|
            0 <= i < bodies.len() ==> add_dispatch(states[i], bodies[i], #[trigger] results[i], states[i + 1]),
        forall|i: int| 0 <= i < bodies.len() ==> add_succeeded(#[trigger] results[i]),
    ensures
        states.last() == store_after(states[0], bodies.map_values(|b: Seq<u8>| added_key(b))),
        states[0].len() == 0 ==> public_keys(states.last()) == first_appearances(
            public_keys(bodies.map_values(|b: Seq<u8>| added_key(b))),
        ),
        states[0].len() == 0 ==> states.last().len() == public_keys(
            bodies.map_values(|b: Seq<u8>| added_key(b)),
        ).to_set().len(),
    decreases bodies.len(),
{
    let added = bodies.map_values(|b: Seq<u8>| added_key(b));
    if bodies.len() > 0 {
        let k = bodies.len() - 1;
        lemma_add_requests(states.drop_last(), bodies.drop_last(), results.drop_last());
        assert(bodies.drop_last().map_values(|b: Seq<u8>| added_key(b)) =~= added.drop_last());
        assert(add_dispatch(states[k], bodies[k], results[k], states[k + 1]));
        assert(add_succeeded(results[k]));
        if let Dispatch::Reply(b) = results[k] {
            assert(b@[0] == SSH_AGENT_SUCCESS);
        }
    }
    if states[0].len() == 0 {
        assert(states[0] =~= Seq::<KeyPairModel>::empty());
        lemma_identities_after_adds(added);
    }
}

/// The body of an mpint for `mag`, as a length.
fn mpint_body_len(mag: &[u8]) -> (r: u64)
    requires
        mag@.len() <= u32::MAX,
    ensures
        r == mpint_body(mag@).len(),
{
    if mag.len() > 0 && mag[0] >= 0x80 {
        mag.len() as u64 + 1
    } else {
        mag.len() as u64
    }
}

/// The length of the identities entry of `kp`, or `None` when it exceeds
/// `u32::MAX`.
fn identity_entry_len(kp: &KeyPair) -> (r: Option<u64>)
    ensures
        r matches Some(n) ==> n == identity_entry(kp@).len() && n <= 0x8_0000_0000,
        r is None ==> identity_entry(kp@).len() > u32::MAX,
{
    reveal(identity_entry);
    let name = kp.name().as_bytes();
    match kp.public() {
        PublicKey::RSA { e, n } => {
            let e = strip_leading_zeros(e);
            let n = strip_leading_zeros(n);
            if e.len() > u32::MAX as usize || n.len() > u32::MAX as usize || name.len()
                > u32::MAX as usize {
                return None;
            }
            let blob_len = 4 + 7 + 4 + mpint_body_len(&e) + 4 + mpint_body_len(&n);
            proof {
                assert(public_blob(kp@.public).len() == blob_len);
            }
            Some(4 + blob_len + 4 + name.len() as u64)
        },
    }
}

/// Appends the identities entry of `kp`.
fn write_identity(list: &mut Vec<u8>, kp: &KeyPair)
    requires
        identity_entry(kp@).len() <= u32::MAX,
    ensures
        final(list)@ == old(list)@ + identity_entry(kp@),
{
    reveal(identity_entry);
    let public = kp.public();
    let name = kp.name().as_bytes();
    write_string(list, &public.encode());
    write_string(list, name);
    assert(final(list)@ =~= old(list)@ + identity_entry(kp@));
}

/// The answer to `SIGN_REQUEST` once the signature was made, or failed:
/// `SIGN_RESPONSE` with the blob, or a failure when there is no blob or it is
/// too long for a frame.
pub fn sign_response(signed: Result<Vec<u8>, KeyError>) -> (r: Vec<u8>)
    ensures
        r@ == match signed {
            Ok(b) => if b@.len() <= u32::MAX - 5 {
                seq![SSH_AGENT_SIGN_RESPONSE] + ssh_string(b@)
            } else {
                failure()
            },
            Err(_) => failure(),
        },
{
    match signed {
        Ok(blob) => if blob.len() <= u32::MAX as usize - 5 {
            let mut out: Vec<u8> = vec![SSH_AGENT_SIGN_RESPONSE];
            write_string(&mut out, &blob);
            assert(out@ =~= seq![SSH_AGENT_SIGN_RESPONSE] + ssh_string(blob@));
            out
        } else {
            failure_body()
        },
        Err(_) => failure_body(),
    }
}

/// The one-byte failure body.
fn failure_body() -> (r: Vec<u8>)
    ensures
        r@ == failure(),
{
    let r = vec![SSH_AGENT_FAILURE];
    assert(r@ =~= failure());
    r
}

/// The answer to `ADD_IDENTITY` once the configuration was persisted, or not.
pub fn add_reply(saved: bool) -> (r: Vec<u8>)
    ensures
        r@ == (if saved {
            seq![SSH_AGENT_SUCCESS]
        } else {
            failure()
        }),
{
    if saved {
        let b = vec![SSH_AGENT_SUCCESS];
        assert(b@ =~= seq![SSH_AGENT_SUCCESS]);
        b
    } else {
        failure_body()
    }
}

impl SignRequest {
    /// The response body once the user decided: the signature when approved
    /// and the signer succeeded, else a failure.
    pub fn respond(&self, approved: bool) -> (r: Vec<u8>)
        ensures
            !approved ==> r@ == failure(),
            approved ==> r@ == failure() || exists|raw: Seq<u8>|
                #[trigger] sign_response_of(self.flags, raw) == r@ && (is_valid_rsa(
                    self.key_pair@.private,
                ) ==> raw == pkcs1_signature(
                    self.key_pair@.private,
                    digest_for(self.flags),
                    self.msg@,
                )),
            r@.len() > 0,
            r@.len() <= u32::MAX,
    {
        if !approved {
            return failure_body();
        }
        let signed = self.key_pair.private().sign(&self.msg, self.flags);
        let ghost g = signed;
        let r = sign_response(signed);
        proof {
            if let Ok(b) = g {
                if b@.len() <= u32::MAX - 5 {
                    let raw = choose|raw: Seq<u8>|
                        #[trigger] signature_blob_of(self.flags, raw) == b@ && (is_valid_rsa(
                            self.key_pair@.private,
                        ) ==> raw == pkcs1_signature(
                            self.key_pair@.private,
                            digest_for(self.flags),
                            self.msg@,
                        ));
                    assert(sign_response_of(self.flags, raw) == r@);
                }
            }
        }
        r
    }
}

/// The agent: a key store that answers requests.
pub struct Agent {
    config: Config,
}

impl View for Agent {
    type V = Seq<KeyPairModel>;

    closed spec fn view(&self) -> Seq<KeyPairModel> {
        self.config@
    }
}

impl Agent {
    pub fn new(config: Config) -> (r: Agent)
        ensures
            r@ == config@,
    {
        Agent { config }
    }

    pub fn config(&self) -> (r: &Config)
        ensures
            r@ == self@,
    {
        &self.config
    }

    /// The configuration, to replace or edit in place.
    pub fn config_mut(&mut self) -> (r: &mut Config)
        ensures
            r@ == old(self)@,
            final(self)@ == final(r)@,
    {
        &mut self.config
    }

    /// The first key pair whose public key is `public`, and its position.
    fn get_key(&self, public: &PublicKey) -> (r: Option<(&KeyPair, usize)>)
        ensures
            r matches Some((kp, i)) ==> is_first_match(self@, public@, i as int) && kp@ == self@[i as int],
            r is None ==> !has_key(self@, public@),
    {
        let keys = &self.config.keys;
        let mut i: usize = 0;
        while i < keys.len()
            invariant
                keys == &self.config.keys,
                i <= keys@.len(),
                forall|j: int| 0 <= j < i ==> self@[j].public != public@,
            decreases keys@.len() - i,
        {
            if keys[i].public().eq(public) {
                return Some((&keys[i], i));
            }
            i = i + 1;
        }
        None
    }

    /// Adds `key_pair` unless a key with the same public key is already
    /// held. Gives whether it was appended: the caller then persists the
    /// configuration.
    pub fn add_key(&mut self, key_pair: KeyPair) -> (appended: bool)
        ensures
            appended == !has_key(old(self)@, key_pair@.public),
            final(self)@ == store_add(old(self)@, key_pair@),
            !appended ==> final(self)@ == old(self)@,
            appended ==> final(self)@ == old(self)@.push(key_pair@),
    {
        let found = self.get_key(key_pair.public()).is_some();
        if found {
            false
        } else {
            self.config.keys.push(key_pair);
            assert(self@ =~= old(self)@.push(key_pair@));
            true
        }
    }

    /// The reply to `REQUEST_IDENTITIES`.
    fn identities_answer(&self) -> (r: Vec<u8>)
        ensures
            r@ == identities_reply(self@),
    {
        let keys = &self.config.keys;
        let mut list: Vec<u8> = Vec::new();
        let mut i: usize = 0;
        assert(self@.take(0) =~= Seq::<KeyPairModel>::empty());
        while i < keys.len()
            invariant
                keys == &self.config.keys,
                i <= keys@.len(),
                list@ == identity_list(self@.take(i as int)),
                list@.len() <= u32::MAX - 5,
            decreases keys@.len() - i,
        {
            let kp = &keys[i];
            let ghost next = self@.take(i + 1);
            proof {
                assert(next.drop_last() =~= self@.take(i as int));
                assert(identity_list(next) == identity_list(self@.take(i as int)) + identity_entry(
                    kp@,
                ));
            }
            let fits = match identity_entry_len(kp) {
                Some(n) => list.len() as u64 + n <= u32::MAX as u64 - 5,
                None => false,
            };
            if !fits {
                proof {
                    lemma_identity_list_prefix(self@, i + 1);
                }
                return failure_body();
            }
            write_identity(&mut list, kp);
            i = i + 1;
        }
        assert(self@.take(i as int) =~= self@);
        proof {
            lemma_identity_list_len(self@);
        }
        let mut out: Vec<u8> = vec![SSH_AGENT_IDENTITIES_ANSWER];
        write_u32(&mut out, keys.len() as u32);
        out.extend_from_slice(&list);
        assert(out@ =~= identities_answer_of(self@));
        out
    }

    /// Handles the body of `ADD_IDENTITY`.
    fn add_identity(&mut self, req: &mut Reader) -> (r: Dispatch)
        ensures
            add_dispatch(old(self)@, old(req).unread(), r, final(self)@),
    {
        let kp = match KeyPair::from_wire(req) {
            Ok(kp) => kp,
            Err(_) => return Dispatch::Reply(failure_body()),
        };
        if self.add_key(kp) {
            Dispatch::Persist
        } else {
            let b = vec![SSH_AGENT_SUCCESS];
            assert(b@ =~= seq![SSH_AGENT_SUCCESS]);
            Dispatch::Reply(b)
        }
    }

    /// Handles the body of `SIGN_REQUEST`.
    fn sign_request(&self, req: &mut Reader) -> (r: Dispatch)
        ensures
            sign_dispatch(self@, old(req).unread(), r),
    {
        let blob = match req.read_string() {
            Ok(v) => v,
            Err(_) => return Dispatch::Reply(failure_body()),
        };
        let msg = match req.read_string() {
            Ok(v) => v,
            Err(_) => return Dispatch::Reply(failure_body()),
        };
        let flags = match req.read_u32() {
            Ok(v) => v,
            Err(_) => return Dispatch::Reply(failure_body()),
        };
        let public = match PublicKey::decode(&blob) {
            Ok(pk) => pk,
            Err(_) => return Dispatch::Reply(failure_body()),
        };
        match self.get_key(&public) {
            Some((kp, _)) => Dispatch::Confirm(SignRequest { key_pair: kp.duplicate(), msg, flags }),
            None => Dispatch::Reply(failure_body()),
        }
    }

    /// Dispatches one request body on its first byte, the message type.
    pub fn handle_request(&mut self, buf: &[u8]) -> (r: Dispatch)
        ensures
            buf@.len() == 0 ==> replies(r, failure()) && final(self)@ == old(self)@,
            buf@.len() > 0 && buf@[0] == SSH_AGENTC_REQUEST_IDENTITIES ==> replies(
                r,
                identities_reply(old(self)@),
            ) && final(self)@ == old(self)@,
            buf@.len() > 0 && buf@[0] == SSH_AGENTC_SIGN_REQUEST ==> sign_dispatch(
                old(self)@,
                buf@.skip(1),
                r,
            ) && final(self)@ == old(self)@,
            buf@.len() > 0 && buf@[0] == SSH_AGENTC_ADD_IDENTITY ==> add_dispatch(
                old(self)@,
                buf@.skip(1),
                r,
                final(self)@,
            ),
            buf@.len() > 0 && buf@[0] != SSH_AGENTC_REQUEST_IDENTITIES && buf@[0]
                != SSH_AGENTC_SIGN_REQUEST && buf@[0] != SSH_AGENTC_ADD_IDENTITY ==> replies(
                r,
                failure(),
            ) && final(self)@ == old(self)@,
            r matches Dispatch::Reply(b) ==> 0 < b@.len() <= u32::MAX,
    {
        let mut req = Reader::new(buf);
        let msg_type = match req.read_u8() {
            Ok(t) => t,
            Err(_) => return Dispatch::Reply(failure_body()),
        };
        if msg_type == SSH_AGENTC_REQUEST_IDENTITIES {
            Dispatch::Reply(self.identities_answer())
        } else if msg_type == SSH_AGENTC_ADD_IDENTITY {
            self.add_identity(&mut req)
        } else if msg_type == SSH_AGENTC_SIGN_REQUEST {
            self.sign_request(&mut req)
        } else {
            Dispatch::Reply(failure_body())
        }
    }
}

} // verus!
