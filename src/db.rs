use vstd::prelude::*;
use crate::query::{Error, Item, Key, Response};

verus! {

/// The four bytes of `u`, most significant first.
pub open spec fn be_bytes(u: u32) -> Seq<u8> {
    seq![(u >> 24u32) as u8, (u >> 16u32) as u8, (u >> 8u32) as u8, u as u8]
}

/// The `u32` whose bytes, most significant first, are `b0 b1 b2 b3`.
pub open spec fn u32_from_be(b0: u8, b1: u8, b2: u8, b3: u8) -> u32 {
    ((b0 as u32) << 24u32) | ((b1 as u32) << 16u32) | ((b2 as u32) << 8u32) | (b3 as u32)
}

/// The `u32` held in bytes `at .. at + 4` of `b`, most significant first.
pub open spec fn u32_at(b: Seq<u8>, at: int) -> u32 {
    u32_from_be(b[at], b[at + 1], b[at + 2], b[at + 3])
}

/// Key bytes of a pair of `u32`: both big-endian, `hi` first.
pub open spec fn pair_bytes(hi: u32, lo: u32) -> Seq<u8> {
    be_bytes(hi) + be_bytes(lo)
}

/// Whether `a` comes before `b` in byte-wise lexicographic order.
pub open spec fn lex_less(a: Seq<u8>, b: Seq<u8>) -> bool {
    exists|i: int|
        0 <= i < a.len() && i < b.len() && a.subrange(0, i) == b.subrange(0, i) && #[trigger] a[i]
            < b[i]
}

proof fn lemma_u32_bytes(u: u32)
    ensures
        u32_at(be_bytes(u), 0) == u,
{
    assert(u32_from_be((u >> 24u32) as u8, (u >> 16u32) as u8, (u >> 8u32) as u8, u as u8) == u)
        by (bit_vector);
}

proof fn lemma_bytes_u32(b0: u8, b1: u8, b2: u8, b3: u8)
    ensures
        be_bytes(u32_from_be(b0, b1, b2, b3)) == seq![b0, b1, b2, b3],
{
    let u = u32_from_be(b0, b1, b2, b3);
    assert((u >> 24u32) as u8 == b0 && (u >> 16u32) as u8 == b1 && (u >> 8u32) as u8 == b2
        && u as u8 == b3) by (bit_vector)
        requires
            u == ((b0 as u32) << 24u32) | ((b1 as u32) << 16u32) | ((b2 as u32) << 8u32) | (
            b3 as u32),
    ;
    assert(be_bytes(u) =~= seq![b0, b1, b2, b3]);
}

/// The key whose bytes are the first eight of `b`.
pub open spec fn key_with(b: Seq<u8>) -> Key {
    Key([b[0], b[1], b[2], b[3], b[4], b[5], b[6], b[7]])
}

proof fn lemma_key_with(k: Key)
    ensures
        key_with(k@) == k,
{
    assert(exists|x: Key| x@ == k@) by {
        assert(k@ == k@);
    }
    let c = key_with(k@);
    assert(forall|i: int| 0 <= i < 8 ==> c.0[i] == c@[i] && k.0[i] == k@[i]);
    assert(c.0 =~= k.0);
}

/// Writes `hi` and `lo` big-endian into a key, `hi` first.
fn encode_pair(hi: u32, lo: u32) -> (r: Key)
    ensures
        r@ == pair_bytes(hi, lo),
{
    let k = Key(
        [
            (hi >> 24u32) as u8,
            (hi >> 16u32) as u8,
            (hi >> 8u32) as u8,
            hi as u8,
            (lo >> 24u32) as u8,
            (lo >> 16u32) as u8,
            (lo >> 8u32) as u8,
            lo as u8,
        ],
    );
    assert(k@ =~= pair_bytes(hi, lo));
    k
}

/// Reads the big-endian `u32` at bytes `at .. at + 4` of a key.
fn read_u32(k: &Key, at: usize) -> (r: u32)
    requires
        at <= 4,
    ensures
        r == u32_at(k@, at as int),
{
    ((k.0[at] as u32) << 24u32) | ((k.0[at + 1] as u32) << 16u32) | ((k.0[at + 2] as u32)
        << 8u32) | (k.0[at + 3] as u32)
}


/// Key of a user: bytes `0..4` hold `user_id` big-endian, bytes `4..8` are zero.
#[derive(Clone, Copy, Debug, PartialEq, Eq, Structural)]
pub struct UserKey {
    pub user_id: u32,
}

/// Key of a tweet: `user_id` then `timestamp`, both big-endian.
#[derive(Clone, Copy, Debug, PartialEq, Eq, Structural)]
pub struct TweetKey {
    pub user_id: u32,
    pub timestamp: u32,
}

/// Key of a follow edge: `source_id` then `destination_id`, both big-endian.
#[derive(Clone, Copy, Debug, PartialEq, Eq, Structural)]
pub struct FollowKey {
    pub source_id: u32,
    pub destination_id: u32,
}

/// The value stored under a tweet key.
#[derive(Clone, Debug)]
pub struct Tweet {
    pub text: String,
}

/// The value stored under a user key.
#[derive(Clone, Debug)]
pub struct User {
    pub name: String,
}

impl UserKey {
    /// Bytes of this key.
    pub open spec fn bytes(self) -> Seq<u8> {
        pair_bytes(self.user_id, 0)
    }

    /// The user key that bytes `b` hold; bytes `4..8` are not read.
    pub open spec fn of_bytes(b: Seq<u8>) -> UserKey {
        UserKey { user_id: u32_at(b, 0) }
    }
}

impl TweetKey {
    /// Bytes of this key.
    pub open spec fn bytes(self) -> Seq<u8> {
        pair_bytes(self.user_id, self.timestamp)
    }

    /// The tweet key that bytes `b` hold.
    pub open spec fn of_bytes(b: Seq<u8>) -> TweetKey {
        TweetKey { user_id: u32_at(b, 0), timestamp: u32_at(b, 4) }
    }
}

impl FollowKey {
    /// Bytes of this key.
    pub open spec fn bytes(self) -> Seq<u8> {
        pair_bytes(self.source_id, self.destination_id)
    }

    /// The follow key that bytes `b` hold.
    pub open spec fn of_bytes(b: Seq<u8>) -> FollowKey {
        FollowKey { source_id: u32_at(b, 0), destination_id: u32_at(b, 4) }
    }
}

impl From<Key> for UserKey {
    fn from(k: Key) -> (r: UserKey) {
        UserKey { user_id: read_u32(&k, 0) }
    }
}

impl vstd::std_specs::convert::FromSpecImpl<Key> for UserKey {
    open spec fn obeys_from_spec() -> bool {
        true
    }

    open spec fn from_spec(k: Key) -> UserKey {
        UserKey::of_bytes(k@)
    }
}

impl From<UserKey> for Key {
    fn from(k: UserKey) -> (r: Key) {
        let r = encode_pair(k.user_id, 0);
        proof {
            lemma_key_with(r);
        }
        r
    }
}

impl vstd::std_specs::convert::FromSpecImpl<UserKey> for Key {
    open spec fn obeys_from_spec() -> bool {
        true
    }

    open spec fn from_spec(k: UserKey) -> Key {
        key_with(k.bytes())
    }
}


impl From<Key> for TweetKey {
    fn from(k: Key) -> (r: TweetKey) {
        TweetKey { user_id: read_u32(&k, 0), timestamp: read_u32(&k, 4) }
    }
}

impl vstd::std_specs::convert::FromSpecImpl<Key> for TweetKey {
    open spec fn obeys_from_spec() -> bool {
        true
    }

    open spec fn from_spec(k: Key) -> TweetKey {
        TweetKey::of_bytes(k@)
    }
}

impl From<TweetKey> for Key {
    fn from(k: TweetKey) -> (r: Key) {
        let r = encode_pair(k.user_id, k.timestamp);
        proof {
            lemma_key_with(r);
        }
        r
    }
}

impl vstd::std_specs::convert::FromSpecImpl<TweetKey> for Key {
    open spec fn obeys_from_spec() -> bool {
        true
    }

    open spec fn from_spec(k: TweetKey) -> Key {
        key_with(k.bytes())
    }
}

impl From<Key> for FollowKey {
    fn from(k: Key) -> (r: FollowKey) {
        FollowKey { source_id: read_u32(&k, 0), destination_id: read_u32(&k, 4) }
    }
}

impl vstd::std_specs::convert::FromSpecImpl<Key> for FollowKey {
    open spec fn obeys_from_spec() -> bool {
        true
    }

    open spec fn from_spec(k: Key) -> FollowKey {
        FollowKey::of_bytes(k@)
    }
}

impl From<FollowKey> for Key {
    fn from(k: FollowKey) -> (r: Key) {
        let r = encode_pair(k.source_id, k.destination_id);
        proof {
            lemma_key_with(r);
        }
        r
    }
}

impl vstd::std_specs::convert::FromSpecImpl<FollowKey> for Key {
    open spec fn obeys_from_spec() -> bool {
        true
    }

    open spec fn from_spec(k: FollowKey) -> Key {
        key_with(k.bytes())
    }
}

/// Bytes `0..8` of a pair key read back as the pair.
proof fn lemma_pair_round_trip(hi: u32, lo: u32)
    ensures
        u32_at(pair_bytes(hi, lo), 0) == hi,
        u32_at(pair_bytes(hi, lo), 4) == lo,
        pair_bytes(hi, lo).len() == 8,
{
    lemma_u32_bytes(hi);
    lemma_u32_bytes(lo);
    let b = pair_bytes(hi, lo);
    assert(b.subrange(0, 4) =~= be_bytes(hi));
    assert(b[4] == be_bytes(lo)[0] && b[5] == be_bytes(lo)[1] && b[6] == be_bytes(lo)[2] && b[7]
        == be_bytes(lo)[3]);
}

/// Every 8 bytes are the bytes of some key.
proof fn lemma_key_exists(b: Seq<u8>)
    requires
        b.len() == 8,
    ensures
        key_with(b)@ == b,
{
    let k = Key([b[0], b[1], b[2], b[3], b[4], b[5], b[6], b[7]]);
    assert(k@ =~= b);
}

/// Decoding an encoded typed key gives that key back, for each of the three
/// kinds of key (`of_bytes` and `key_with` are what the `From` conversions
/// between typed keys and `Key` return).
pub proof fn lemma_typed_key_round_trip(u: UserKey, t: TweetKey, f: FollowKey)
    ensures
        UserKey::of_bytes(key_with(u.bytes())@) == u,
        TweetKey::of_bytes(key_with(t.bytes())@) == t,
        FollowKey::of_bytes(key_with(f.bytes())@) == f,
{
    lemma_pair_round_trip(u.user_id, 0);
    lemma_pair_round_trip(t.user_id, t.timestamp);
    lemma_pair_round_trip(f.source_id, f.destination_id);
    lemma_key_exists(u.bytes());
    lemma_key_exists(t.bytes());
    lemma_key_exists(f.bytes());
}

/// Any 8 bytes are the bytes of the typed key that they decode to: reading
/// and then writing a tweet or follow key loses nothing.
pub proof fn lemma_key_bytes_round_trip(k: Key)
    ensures
        TweetKey::of_bytes(k@).bytes() == k@,
        FollowKey::of_bytes(k@).bytes() == k@,
{
    let b = k@;
    lemma_bytes_u32(b[0], b[1], b[2], b[3]);
    lemma_bytes_u32(b[4], b[5], b[6], b[7]);
    assert(TweetKey::of_bytes(b).bytes() =~= b);
    assert(FollowKey::of_bytes(b).bytes() =~= b);
}


/// The first byte at which the big-endian bytes of `a < b` differ, where
/// `a`'s byte is the smaller.
proof fn lemma_be_less(a: u32, b: u32) -> (i: int)
    requires
        a < b,
    ensures
        0 <= i < 4,
        be_bytes(a).subrange(0, i) == be_bytes(b).subrange(0, i),
        be_bytes(a)[i] < be_bytes(b)[i],
{
    let (x, y) = (be_bytes(a), be_bytes(b));
    if (a >> 24u32) as u8 != (b >> 24u32) as u8 {
        assert(((a >> 24u32) as u8) < ((b >> 24u32) as u8)) by (bit_vector)
            requires
                a < b,
                (a >> 24u32) as u8 != (b >> 24u32) as u8,
        ;
        assert(x.subrange(0, 0) =~= y.subrange(0, 0));
        0
    } else if (a >> 16u32) as u8 != (b >> 16u32) as u8 {
        assert(((a >> 16u32) as u8) < ((b >> 16u32) as u8)) by (bit_vector)
            requires
                a < b,
                (a >> 24u32) as u8 == (b >> 24u32) as u8,
                (a >> 16u32) as u8 != (b >> 16u32) as u8,
        ;
        assert(x.subrange(0, 1) =~= y.subrange(0, 1));
        1
    } else if (a >> 8u32) as u8 != (b >> 8u32) as u8 {
        assert(((a >> 8u32) as u8) < ((b >> 8u32) as u8)) by (bit_vector)
            requires
                a < b,
                (a >> 24u32) as u8 == (b >> 24u32) as u8,
                (a >> 16u32) as u8 == (b >> 16u32) as u8,
                (a >> 8u32) as u8 != (b >> 8u32) as u8,
        ;
        assert(x.subrange(0, 2) =~= y.subrange(0, 2));
        2
    } else {
        assert((a as u8) < (b as u8)) by (bit_vector)
            requires
                a < b,
                (a >> 24u32) as u8 == (b >> 24u32) as u8,
                (a >> 16u32) as u8 == (b >> 16u32) as u8,
                (a >> 8u32) as u8 == (b >> 8u32) as u8,
        ;
        assert(x.subrange(0, 3) =~= y.subrange(0, 3));
        3
    }
}

/// Pair keys order as their pairs do: if `(hi1, lo1)` comes before
/// `(hi2, lo2)` lexicographically, the first key's bytes come before the
/// second's.
proof fn lemma_pair_order(hi1: u32, lo1: u32, hi2: u32, lo2: u32)
    requires
        hi1 < hi2 || (hi1 == hi2 && lo1 < lo2),
    ensures
        lex_less(pair_bytes(hi1, lo1), pair_bytes(hi2, lo2)),
{
    let (x, y) = (pair_bytes(hi1, lo1), pair_bytes(hi2, lo2));
    if hi1 < hi2 {
        let i = lemma_be_less(hi1, hi2);
        assert(x.subrange(0, i) =~= be_bytes(hi1).subrange(0, i));
        assert(y.subrange(0, i) =~= be_bytes(hi2).subrange(0, i));
        assert(x[i] < y[i]);
    } else {
        let i = lemma_be_less(lo1, lo2);
        assert(x.subrange(0, 4 + i) =~= be_bytes(hi1) + be_bytes(lo1).subrange(0, i));
        assert(y.subrange(0, 4 + i) =~= be_bytes(hi2) + be_bytes(lo2).subrange(0, i));
        assert(x[4 + i] < y[4 + i]);
    }
}

/// Tweet keys order as their `(user_id, timestamp)` pairs do: byte-wise
/// order of the encoded keys (what `Key::from` returns) follows numeric order
/// of the pairs.
pub proof fn lemma_tweet_key_order(a: TweetKey, b: TweetKey)
    requires
        a.user_id < b.user_id || (a.user_id == b.user_id && a.timestamp < b.timestamp),
    ensures
        lex_less(key_with(a.bytes())@, key_with(b.bytes())@),
{
    lemma_pair_order(a.user_id, a.timestamp, b.user_id, b.timestamp);
    lemma_pair_round_trip(a.user_id, a.timestamp);
    lemma_pair_round_trip(b.user_id, b.timestamp);
    lemma_key_exists(a.bytes());
    lemma_key_exists(b.bytes());
}

/// Follow keys order as their `(source_id, destination_id)` pairs do.
pub proof fn lemma_follow_key_order(a: FollowKey, b: FollowKey)
    requires
        a.source_id < b.source_id || (a.source_id == b.source_id && a.destination_id
            < b.destination_id),
    ensures
        lex_less(key_with(a.bytes())@, key_with(b.bytes())@),
{
    lemma_pair_order(a.source_id, a.destination_id, b.source_id, b.destination_id);
    lemma_pair_round_trip(a.source_id, a.destination_id);
    lemma_pair_round_trip(b.source_id, b.destination_id);
    lemma_key_exists(a.bytes());
    lemma_key_exists(b.bytes());
}


/// A table name's ASCII bytes, padded with spaces to eight bytes.
pub open spec fn padded_name(name: Seq<u8>) -> Seq<u8> {
    name + Seq::new((8 - name.len()) as nat, |i: int| 32u8)
}

/// Id of the users table: `users` padded with spaces.
pub fn table_users() -> (r: Key)
    ensures
        r@ == padded_name(seq![117u8, 115, 101, 114, 115]),
{
    let r = Key([117, 115, 101, 114, 115, 32, 32, 32]);
    assert(r@ =~= padded_name(seq![117u8, 115, 101, 114, 115]));
    r
}

/// Id of the tweets table: `tweets` padded with spaces.
pub fn table_tweets() -> (r: Key)
    ensures
        r@ == padded_name(seq![116u8, 119, 101, 101, 116, 115]),
{
    let r = Key([116, 119, 101, 101, 116, 115, 32, 32]);
    assert(r@ =~= padded_name(seq![116u8, 119, 101, 101, 116, 115]));
    r
}

/// Id of the follows table: `follows` padded with spaces.
pub fn table_follows() -> (r: Key)
    ensures
        r@ == padded_name(seq![102u8, 111, 108, 108, 111, 119, 115]),
{
    let r = Key([102, 111, 108, 108, 111, 119, 115, 32]);
    assert(r@ =~= padded_name(seq![102u8, 111, 108, 108, 111, 119, 115]));
    r
}

/// Why a call to the store failed, once its answer was read.
#[derive(Clone, Debug)]
pub enum ClientError {
    /// The store reported an error.
    Server(Error),
    /// The store answered another operation than the one requested.
    ProtocolViolation,
}

/// The result of a request for one key, given the store's answer: the item
/// (absent when the key is not in the table), the error that the store
/// reported, or a protocol violation for an answer to another operation.
pub fn get_item_outcome(response: Response) -> (r: Result<Option<Item>, ClientError>)
    ensures
        match response {
            Response::GetItem(out) => r == Ok::<Option<Item>, ClientError>(out.item),
            Response::Error(e) => r == Err::<Option<Item>, ClientError>(ClientError::Server(e)),
            _ => r == Err::<Option<Item>, ClientError>(ClientError::ProtocolViolation),
        },
{
    match response {
        Response::GetItem(out) => Ok(out.item),
        Response::Error(e) => Err(ClientError::Server(e)),
        _ => Err(ClientError::ProtocolViolation),
    }
}

/// The result of storing an item, given the store's answer.
pub fn put_item_outcome(response: Response) -> (r: Result<(), ClientError>)
    ensures
        match response {
            Response::PutItem(_) => r == Ok::<(), ClientError>(()),
            Response::Error(e) => r == Err::<(), ClientError>(ClientError::Server(e)),
            _ => r == Err::<(), ClientError>(ClientError::ProtocolViolation),
        },
{
    match response {
        Response::PutItem(_) => Ok(()),
        Response::Error(e) => Err(ClientError::Server(e)),
        _ => Err(ClientError::ProtocolViolation),
    }
}

/// The result of a scan, given the store's answer: its items, in the order
/// the store sent them.
pub fn scan_item_outcome(response: Response) -> (r: Result<Vec<Item>, ClientError>)
    ensures
        match response {
            Response::ScanItem(out) => r matches Ok(items) && items@ == out.items@,
            Response::Error(e) => r == Err::<Vec<Item>, ClientError>(ClientError::Server(e)),
            _ => r == Err::<Vec<Item>, ClientError>(ClientError::ProtocolViolation),
        },
{
    match response {
        Response::ScanItem(out) => Ok(out.items),
        Response::Error(e) => Err(ClientError::Server(e)),
        _ => Err(ClientError::ProtocolViolation),
    }
}


/// Where a connection handle stands between calls.
#[derive(Clone, Copy, Debug, PartialEq, Eq, Structural)]
pub enum HandleState {
    /// Connected, with no request outstanding.
    Idle,
    /// A request was written and its response line is not yet read.
    AwaitingResponse,
    /// An I/O fault ended the connection; the handle is not used again.
    Disconnected,
}

/// What happens on a connection handle.
#[derive(Clone, Copy, Debug, PartialEq, Eq, Structural)]
pub enum HandleEvent {
    /// A request is about to be written.
    Send,
    /// A full response line was read.
    Receive,
    /// Reading or writing failed.
    Fault,
}

/// The state after `e` in state `s`, or none where `e` may not happen there:
/// a request is sent only from `Idle`, so at most one is outstanding; a line
/// is received only while awaiting one; nothing happens once disconnected.
pub open spec fn handle_step(s: HandleState, e: HandleEvent) -> Option<HandleState> {
    match (s, e) {
        (HandleState::Idle, HandleEvent::Send) => Some(HandleState::AwaitingResponse),
        (HandleState::AwaitingResponse, HandleEvent::Receive) => Some(HandleState::Idle),
        (HandleState::Disconnected, _) => None,
        (_, HandleEvent::Fault) => Some(HandleState::Disconnected),
        _ => None,
    }
}

/// Advances a connection handle's state by one event.
pub fn next_handle_state(s: HandleState, e: HandleEvent) -> (r: Option<HandleState>)
    ensures
        r == handle_step(s, e),
{
    match (s, e) {
        (HandleState::Idle, HandleEvent::Send) => Some(HandleState::AwaitingResponse),
        (HandleState::AwaitingResponse, HandleEvent::Receive) => Some(HandleState::Idle),
        (HandleState::Disconnected, _) => None,
        (_, HandleEvent::Fault) => Some(HandleState::Disconnected),
        _ => None,
    }
}

/// A disconnected handle stays so, and a request is only ever sent from
/// `Idle`, which leaves at most one request outstanding.
pub proof fn lemma_handle_discipline(s: HandleState, e: HandleEvent)
    ensures
        s == HandleState::Disconnected ==> handle_step(s, e) is None,
        e == HandleEvent::Send && handle_step(s, e) is Some ==> s == HandleState::Idle,
        s == HandleState::AwaitingResponse && e == HandleEvent::Send ==> handle_step(s, e) is None,
{
}

} // verus!
