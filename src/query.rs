use vstd::prelude::*;

verus! {

/// An opaque 8-byte key, the currency exchanged with the store.
#[derive(Clone, Copy, Debug, Hash)]
pub struct Key(pub [u8; 8]);

impl View for Key {
    type V = Seq<u8>;

    open spec fn view(&self) -> Seq<u8> {
        self.0@
    }
}

impl PartialEq for Key {
    fn eq(&self, o: &Key) -> (r: bool)
        ensures
            r == (self@ == o@),
    {
        let mut i: usize = 0;
        while i < 8
            invariant
                0 <= i <= 8,
                forall|j: int| 0 <= j < i ==> self@[j] == o@[j],
            decreases 8 - i,
        {
            if self.0[i] != o.0[i] {
                return false;
            }
            i = i + 1;
        }
        assert(self@ =~= o@);
        true
    }
}

impl vstd::std_specs::cmp::PartialEqSpecImpl for Key {
    open spec fn obeys_eq_spec() -> bool {
        true
    }

    open spec fn eq_spec(&self, o: &Key) -> bool {
        self@ == o@
    }
}

impl Eq for Key {
}

/// Uppercase hexadecimal digit for a value below 16.
pub open spec fn upper_digit(n: u8) -> char {
    if n < 10 {
        ((n + 48) as u8) as char
    } else {
        ((n + 55) as u8) as char
    }
}

/// The `i`-th nibble of `b`, high nibble of each byte first.
pub open spec fn nibble(b: Seq<u8>, i: int) -> u8 {
    if i % 2 == 0 {
        b[i / 2] / 16
    } else {
        b[i / 2] % 16
    }
}

/// Text of `b` as two uppercase hexadecimal digits per byte.
pub open spec fn upper_hex(b: Seq<u8>) -> Seq<char> {
    Seq::new(2 * b.len(), |i: int| upper_digit(nibble(b, i)))
}

/// Whether `c` is a hexadecimal digit, in either case.
pub open spec fn is_hex_digit(c: char) -> bool {
    ('0' <= c <= '9') || ('a' <= c <= 'f') || ('A' <= c <= 'F')
}

/// Value of a hexadecimal digit, in either case.
pub open spec fn digit_value(c: char) -> int {
    if '0' <= c <= '9' {
        c as int - 48
    } else if 'a' <= c <= 'f' {
        c as int - 87
    } else {
        c as int - 55
    }
}

/// Whether `s` is the text of a key: sixteen hexadecimal digits.
pub open spec fn is_key_text(s: Seq<char>) -> bool {
    s.len() == 16 && forall|i: int| 0 <= i < s.len() ==> is_hex_digit(#[trigger] s[i])
}

/// Bytes written by hexadecimal text, two digits per byte.
pub open spec fn hex_bytes(s: Seq<char>) -> Seq<u8> {
    Seq::new(s.len() / 2, |i: int| (digit_value(s[2 * i]) * 16 + digit_value(s[2 * i + 1])) as u8)
}

#[verifier::external_type_specification]
#[verifier::external_body]
pub struct ExFromHexError(hex::FromHexError);

/// Relies on hex::encode_upper: each byte becomes two uppercase digits,
/// high nibble first.
#[verifier::external_body]
fn hex_encode_upper(b: &[u8; 8]) -> (r: String)
    ensures
        r@ == upper_hex(b@),
{
    hex::encode_upper(b)
}

/// Relies on `<[u8; 8] as hex::FromHex>::from_hex`: it accepts exactly the
/// texts of sixteen hexadecimal digits in either case and decodes two digits
/// per byte.
#[verifier::external_body]
fn hex_decode8(s: &str) -> (r: Result<[u8; 8], hex::FromHexError>)
    ensures
        r is Ok <==> is_key_text(s@),
        r matches Ok(b) ==> b@ == hex_bytes(s@),
{
    <[u8; 8] as hex::FromHex>::from_hex(s)
}

/// The text of a key is not sixteen hexadecimal digits.
#[derive(Clone, Copy, Debug, PartialEq, Eq, Structural)]
pub struct KeyTextError;

/// Text form of a key: sixteen uppercase hexadecimal digits.
pub fn encode_key_text(key: &Key) -> (r: String)
    ensures
        r@ == upper_hex(key@),
        r@.len() == 16,
{
    hex_encode_upper(&key.0)
}

/// Reads a key from its text form; digits may be in either case.
pub fn decode_key_text(s: &str) -> (r: Result<Key, KeyTextError>)
    ensures
        r is Ok <==> is_key_text(s@),
        r matches Ok(k) ==> k@ == hex_bytes(s@),
{
    match hex_decode8(s) {
        Ok(b) => Ok(Key(b)),
        Err(_) => Err(KeyTextError),
    }
}


/// Whether `c` is an uppercase hexadecimal digit.
pub open spec fn is_upper_hex_digit(c: char) -> bool {
    ('0' <= c <= '9') || ('A' <= c <= 'F')
}

/// The text form of any key is sixteen uppercase hexadecimal digits, and
/// reading it back gives the same key.
pub proof fn lemma_key_text_round_trip(key: Key)
    ensures
        upper_hex(key@).len() == 16,
        forall|i: int| 0 <= i < 16 ==> is_upper_hex_digit(#[trigger] upper_hex(key@)[i]),
        is_key_text(upper_hex(key@)),
        hex_bytes(upper_hex(key@)) == key@,
{
    let b = key@;
    let t = upper_hex(b);
    assert forall|i: int| 0 <= i < 16 implies is_upper_hex_digit(#[trigger] t[i])
        && digit_value(t[i]) == nibble(b, i) as int by {
        assert(nibble(b, i) < 16);
    }
    assert forall|j: int| 0 <= j < 8 implies #[trigger] hex_bytes(t)[j] == b[j] by {
        assert(digit_value(t[2 * j]) == b[j] / 16);
        assert(digit_value(t[2 * j + 1]) == b[j] % 16);
    }
    assert(hex_bytes(t) =~= b);
}

/// A key with its value, as stored.
#[derive(Clone, Debug)]
pub struct Item {
    pub key: Key,
    pub value: String,
}

/// Fields of a request for one key.
#[derive(Clone, Debug)]
pub struct GetItemInput {
    pub table_id: Key,
    pub key: Key,
}

/// Fields of a request that stores one item.
#[derive(Clone, Debug)]
pub struct PutItemInput {
    pub table_id: Key,
    pub item: Item,
}

/// Fields of a request for a run of items in key order, starting at `start`
/// (inclusive; the table's first or last key when absent), descending when
/// `backward`, at most `limit` of them.
#[derive(Clone, Debug)]
pub struct ScanItemInput {
    pub table_id: Key,
    pub start: Option<Key>,
    pub backward: bool,
    pub limit: usize,
}

/// A request to the store.
#[derive(Clone, Debug)]
pub enum Request {
    GetItem(GetItemInput),
    PutItem(PutItemInput),
    ScanItem(ScanItemInput),
}

/// Payload of an answer to a request for one key.
#[derive(Clone, Debug)]
pub struct GetItemOutput {
    pub item: Option<Item>,
}

/// Acknowledgement of a stored item.
#[derive(Clone, Copy, Debug, PartialEq, Eq, Structural)]
pub struct PutItemOutput;

/// Payload of an answer to a scan.
#[derive(Clone, Debug)]
pub struct ScanItemOutput {
    pub items: Vec<Item>,
}

/// An error that the store reports.
#[derive(Clone, Debug)]
pub enum Error {
    Deadlock,
    Other { message: String },
}

/// An answer of the store.
#[derive(Clone, Debug)]
pub enum Response {
    GetItem(GetItemOutput),
    PutItem(PutItemOutput),
    ScanItem(ScanItemOutput),
    Error(Error),
}


/// The newline byte that ends each message on the wire.
pub const NEWLINE: u8 = 10;

/// A message framed for the wire: its bytes followed by one newline. None
/// when the message itself holds a newline, which would split it in two.
pub fn frame_message(body: &[u8]) -> (r: Option<Vec<u8>>)
    requires
        body@.len() < usize::MAX,
    ensures
        r is Some <==> !body@.contains(NEWLINE),
        r matches Some(v) ==> v@ == body@.push(NEWLINE),
{
    let mut out: Vec<u8> = Vec::new();
    let mut i: usize = 0;
    while i < body.len()
        invariant
            0 <= i <= body@.len(),
            out@ == body@.subrange(0, i as int),
            forall|j: int| 0 <= j < i ==> body@[j] != NEWLINE,
        decreases body@.len() - i,
    {
        if body[i] == NEWLINE {
            assert(body@.contains(NEWLINE)) by {
                assert(body@[i as int] == NEWLINE);
            }
            return None;
        }
        out.push(body[i]);
        i = i + 1;
        assert(out@ =~= body@.subrange(0, i as int));
    }
    assert(out@ =~= body@);
    out.push(NEWLINE);
    Some(out)
}

/// The message carried by a line read from the wire: the bytes before its
/// first newline. None when no newline came, that is when the connection
/// closed before a full line arrived.
pub fn line_message(line: &[u8]) -> (r: Option<Vec<u8>>)
    ensures
        r is Some <==> line@.contains(NEWLINE),
        r matches Some(v) ==> v@.len() < line@.len() && line@[v@.len() as int] == NEWLINE
            && v@ == line@.subrange(0, v@.len() as int) && !v@.contains(NEWLINE),
{
    let mut out: Vec<u8> = Vec::new();
    let mut i: usize = 0;
    while i < line.len()
        invariant
            0 <= i <= line@.len(),
            out@ == line@.subrange(0, i as int),
            forall|j: int| 0 <= j < i ==> line@[j] != NEWLINE,
        decreases line@.len() - i,
    {
        if line[i] == NEWLINE {
            assert(line@.contains(NEWLINE)) by {
                assert(line@[i as int] == NEWLINE);
            }
            return Some(out);
        }
        out.push(line[i]);
        i = i + 1;
        assert(out@ =~= line@.subrange(0, i as int));
    }
    None
}

/// Reading a framed message back gives the message: the framed bytes hold a
/// newline, and the bytes before their first newline are exactly the
/// message.
pub proof fn lemma_frame_then_read(body: Seq<u8>, v: Seq<u8>)
    requires
        !body.contains(NEWLINE),
        v.len() < body.push(NEWLINE).len(),
        body.push(NEWLINE)[v.len() as int] == NEWLINE,
        v == body.push(NEWLINE).subrange(0, v.len() as int),
        !v.contains(NEWLINE),
    ensures
        body.push(NEWLINE).contains(NEWLINE),
        v == body,
{
    let framed = body.push(NEWLINE);
    assert(framed[body.len() as int] == NEWLINE);
    if v.len() < body.len() {
        assert(body[v.len() as int] == NEWLINE);
        assert(body.contains(NEWLINE));
    }
    assert(v =~= body);
}

} // verus!
