//! The encodings that the node shares with its peers through `postcard`.
use vstd::prelude::*;

verus! {

/// The byte strings of a list of byte vectors.
pub open spec fn rows(v: Seq<Vec<u8>>) -> Seq<Seq<u8>> {
    v.map_values(|r: Vec<u8>| r@)
}

/// A length as a variable-width integer: seven bits to a byte, least
/// significant first, the top bit set on every byte but the last.
pub open spec fn varint(n: nat) -> Seq<u8>
    decreases n,
{
    if n < 128 {
        seq![n as u8]
    } else {
        seq![(128 + n % 128) as u8] + varint(n / 128)
    }
}

/// Byte strings one after the other, each behind its length.
pub open spec fn row_fields(r: Seq<Seq<u8>>) -> Seq<u8>
    decreases r.len(),
{
    if r.len() == 0 {
        Seq::empty()
    } else {
        row_fields(r.drop_last()) + varint(r.last().len()) + r.last()
    }
}

/// A list of byte strings in its encoded form: how many there are, then each.
pub open spec fn rows_bytes(r: Seq<Seq<u8>>) -> Seq<u8> {
    varint(r.len()) + row_fields(r)
}

/// What `postcard::from_bytes::<Vec<Vec<u8>>>` reads from `data` on a machine
/// whose words have `word_bits` bits: a list of byte strings, or nothing where
/// it reports an error. The width bounds how long a length field may be.
pub uninterp spec fn postcard_rows(word_bits: nat, data: Seq<u8>) -> Option<Seq<Seq<u8>>>;

/// What the decoder reads on this machine.
pub open spec fn decoded_rows(data: Seq<u8>) -> Option<Seq<Seq<u8>>> {
    postcard_rows(usize::BITS as nat, data)
}

/// `postcard::from_bytes` at the type `Vec<Vec<u8>>`. What it reads depends on
/// the bytes and the machine's word width alone, every error of the decoder is
/// `None` here, and a list in the encoded form is read back.
#[verifier::external_body]
pub(crate) fn decode_rows(data: &[u8]) -> (decoded: Option<Vec<Vec<u8>>>)
    ensures
        match decoded {
            Some(v) => postcard_rows(usize::BITS as nat, data@) == Some(rows(v@)),
            None => postcard_rows(usize::BITS as nat, data@) is None,
        },
        forall|r: Seq<Seq<u8>>|
            data@ == #[trigger] rows_bytes(r) ==> decoded is Some && rows(decoded->0@) == r,
{
    postcard::from_bytes::<Vec<Vec<u8>>>(data).ok()
}

/// A text as its length in bytes and its UTF-8 bytes.
pub open spec fn text_field(s: Seq<char>) -> Seq<u8> {
    varint(vstd::utf8::encode_utf8(s).len()) + vstd::utf8::encode_utf8(s)
}

/// `postcard::to_allocvec` of a pair of texts: the two fields one after the
/// other. Growing a vector never fails, so the encoder has no error to report.
#[verifier::external_body]
pub(crate) fn encode_text_pair(a: &String, b: &String) -> (encoded: Vec<u8>)
    ensures
        encoded@ == text_field(a@) + text_field(b@),
{
    postcard::to_allocvec(&(a.as_str(), b.as_str())).unwrap()
}

pub proof fn lemma_varint_ends_itself(a: nat, b: nat, x: Seq<u8>, y: Seq<u8>)
    requires
        varint(a) + x == varint(b) + y,
    ensures
        a == b,
        x == y,
    decreases a,
{
    let whole = varint(a) + x;
    assert(whole[0] == varint(a)[0]);
    assert(whole[0] == varint(b)[0]);
    if a < 128 {
        assert(varint(a)[0] == a);
        if b >= 128 {
            assert(varint(b)[0] == (128 + b % 128) as u8);
            assert(128 + b % 128 <= 255);
        }
        assert(whole.subrange(1, whole.len() as int) =~= x);
        assert(whole.subrange(1, whole.len() as int) =~= y);
    } else {
        assert(varint(a)[0] == (128 + a % 128) as u8);
        assert(128 + a % 128 <= 255);
        assert(b >= 128);
        assert(varint(b)[0] == (128 + b % 128) as u8);
        assert(128 + b % 128 <= 255);
        assert(whole.subrange(1, whole.len() as int) =~= varint(a / 128) + x);
        assert(whole.subrange(1, whole.len() as int) =~= varint(b / 128) + y);
        lemma_varint_ends_itself(a / 128, b / 128, x, y);
    }
}

/// A text that is written says where it ends: no text can be taken for another,
/// nor for a part of what follows it.
pub proof fn law_text_field_ends_itself(a: Seq<char>, b: Seq<char>, x: Seq<u8>, y: Seq<u8>)
    requires
        text_field(a) + x == text_field(b) + y,
    ensures
        a == b,
        x == y,
{
    let u = vstd::utf8::encode_utf8(a);
    let v = vstd::utf8::encode_utf8(b);
    assert(text_field(a) + x =~= varint(u.len()) + (u + x));
    assert(text_field(b) + y =~= varint(v.len()) + (v + y));
    lemma_varint_ends_itself(u.len(), v.len(), u + x, v + y);
    assert((u + x).subrange(0, u.len() as int) =~= u);
    assert((v + y).subrange(0, v.len() as int) =~= v);
    assert((u + x).subrange(u.len() as int, (u + x).len() as int) =~= x);
    assert((v + y).subrange(v.len() as int, (v + y).len() as int) =~= y);
    vstd::utf8::encode_utf8_decode_utf8(a);
    vstd::utf8::encode_utf8_decode_utf8(b);
}

/// An optional number: a zero byte, or a one and the number.
pub open spec fn optional_field(n: Option<u64>) -> Seq<u8> {
    match n {
        None => seq![0u8],
        Some(x) => seq![1u8] + varint(x as nat),
    }
}

/// A queued payload as it stands on disk: its number, topic, bytes, time of
/// capture, attempts and last attempt, one after the other.
pub open spec fn queued_bytes(q: (u64, Seq<char>, Seq<u8>, u64, u32, Option<u64>)) -> Seq<u8> {
    varint(q.0 as nat) + text_field(q.1) + varint(q.2.len()) + q.2 + varint(q.3 as nat) + varint(
        q.4 as nat,
    ) + optional_field(q.5)
}

/// What `postcard::from_bytes` reads from `data` as a queued payload, on a
/// machine whose words have `word_bits` bits, or nothing where it reports an
/// error.
pub uninterp spec fn postcard_queued(word_bits: nat, data: Seq<u8>) -> Option<
    (u64, Seq<char>, Seq<u8>, u64, u32, Option<u64>),
>;

/// `postcard::to_allocvec` of the fields of a queued payload, as a tuple: the
/// fields one after the other, numbers of more than one byte in variable width.
/// Growing a vector never fails, so the encoder has no error to report.
#[verifier::external_body]
pub(crate) fn encode_queued(
    id: u64,
    topic: &String,
    payload: &Vec<u8>,
    captured_at: u64,
    attempts: u32,
    last_attempt: Option<u64>,
) -> (encoded: Vec<u8>)
    ensures
        encoded@ == queued_bytes((id, topic@, payload@, captured_at, attempts, last_attempt)),
{
    postcard::to_allocvec(
        &(id, topic.as_str(), payload.as_slice(), captured_at, attempts, last_attempt),
    ).unwrap()
}

/// `postcard::from_bytes` at the tuple of a queued payload's fields. What it
/// reads depends on the bytes and the machine's word width alone, every error of
/// the decoder is `None` here, and what `to_allocvec` wrote it reads back.
#[verifier::external_body]
pub(crate) fn decode_queued(data: &[u8]) -> (decoded: Option<
    (u64, String, Vec<u8>, u64, u32, Option<u64>),
>)
    ensures
        match decoded {
            Some(q) => postcard_queued(usize::BITS as nat, data@) == Some(
                (q.0, q.1@, q.2@, q.3, q.4, q.5),
            ),
            None => postcard_queued(usize::BITS as nat, data@) is None,
        },
        forall|q: (u64, Seq<char>, Seq<u8>, u64, u32, Option<u64>)|
            data@ == #[trigger] queued_bytes(q) ==> decoded is Some && (
                (decoded->0).0,
                (decoded->0).1@,
                (decoded->0).2@,
                (decoded->0).3,
                (decoded->0).4,
                (decoded->0).5,
            ) == q,
{
    postcard::from_bytes::<(u64, String, Vec<u8>, u64, u32, Option<u64>)>(data).ok()
}

/// `postcard::to_allocvec` of a pair of a small and a large number: both in
/// variable width. Growing a vector never fails, so the encoder has no error to
/// report.
#[verifier::external_body]
pub(crate) fn encode_count_at(count: u32, at: u64) -> (encoded: Vec<u8>)
    ensures
        encoded@ == varint(count as nat) + varint(at as nat),
{
    postcard::to_allocvec(&(count, at)).unwrap()
}

/// The rows of a table of keys: names, each with a key.
pub open spec fn key_rows(v: Seq<(String, [u8; 32])>) -> Seq<(Seq<char>, [u8; 32])> {
    v.map_values(|r: (String, [u8; 32])| (r.0@, r.1))
}

/// The rows of a table of keys one after the other: each name as a text, and the
/// bytes of its key as they are.
pub open spec fn key_row_fields(r: Seq<(Seq<char>, [u8; 32])>) -> Seq<u8>
    decreases r.len(),
{
    if r.len() == 0 {
        Seq::empty()
    } else {
        key_row_fields(r.drop_last()) + text_field(r.last().0) + r.last().1@
    }
}

/// A table of keys in its encoded form: how many rows there are, then each.
pub open spec fn key_rows_bytes(r: Seq<(Seq<char>, [u8; 32])>) -> Seq<u8> {
    varint(r.len()) + key_row_fields(r)
}

/// What `postcard::from_bytes` reads from `data` as a table of keys, on a machine
/// whose words have `word_bits` bits, or the words of its error.
pub uninterp spec fn postcard_key_rows(word_bits: nat, data: Seq<u8>) -> Result<
    Seq<(Seq<char>, [u8; 32])>,
    Seq<char>,
>;

/// `postcard::to_allocvec` of a table of keys: its rows in their order. Growing a
/// vector never fails, so the encoder has no error to report.
#[verifier::external_body]
pub(crate) fn encode_key_rows(table: &Vec<(String, [u8; 32])>) -> (encoded: Vec<u8>)
    ensures
        encoded@ == key_rows_bytes(key_rows(table@)),
{
    postcard::to_allocvec(table).unwrap()
}

/// `postcard::from_bytes` at a table of keys. What it reads depends on the bytes
/// and the machine's word width alone, its errors come with their words, and a
/// table in the encoded form is read back.
#[verifier::external_body]
pub(crate) fn decode_key_rows(data: &[u8]) -> (decoded: Result<Vec<(String, [u8; 32])>, String>)
    ensures
        match decoded {
            Ok(v) => {
                &&& postcard_key_rows(usize::BITS as nat, data@) is Ok
                &&& postcard_key_rows(usize::BITS as nat, data@)->Ok_0 == key_rows(v@)
            },
            Err(e) => {
                &&& postcard_key_rows(usize::BITS as nat, data@) is Err
                &&& postcard_key_rows(usize::BITS as nat, data@)->Err_0 == e@
            },
        },
        forall|r: Seq<(Seq<char>, [u8; 32])>|
            data@ == #[trigger] key_rows_bytes(r) ==> decoded is Ok && key_rows(
                decoded->Ok_0@,
            ) == r,
{
    postcard::from_bytes::<Vec<(String, [u8; 32])>>(data).map_err(|e| e.to_string())
}

/// The rows of a table of policies: names, each with the version of its form and
/// a flag.
pub open spec fn policy_rows(v: Seq<(String, (u8, bool))>) -> Seq<(Seq<char>, (u8, bool))> {
    v.map_values(|r: (String, (u8, bool))| (r.0@, r.1))
}

/// A flag as a byte.
pub open spec fn flag_byte(flag: bool) -> u8 {
    if flag {
        1
    } else {
        0
    }
}

/// The rows of a table of policies one after the other: each name as a text, a
/// byte for its version and a byte for its flag.
pub open spec fn policy_row_fields(r: Seq<(Seq<char>, (u8, bool))>) -> Seq<u8>
    decreases r.len(),
{
    if r.len() == 0 {
        Seq::empty()
    } else {
        policy_row_fields(r.drop_last()) + text_field(r.last().0) + seq![
            r.last().1.0,
            flag_byte(r.last().1.1),
        ]
    }
}

/// A table of policies in its encoded form: how many rows there are, then each.
pub open spec fn policy_rows_bytes(r: Seq<(Seq<char>, (u8, bool))>) -> Seq<u8> {
    varint(r.len()) + policy_row_fields(r)
}

/// What `postcard::from_bytes` reads from `data` as a table of policies, on a
/// machine whose words have `word_bits` bits, or the words of its error.
pub uninterp spec fn postcard_policy_rows(word_bits: nat, data: Seq<u8>) -> Result<
    Seq<(Seq<char>, (u8, bool))>,
    Seq<char>,
>;

/// `postcard::to_allocvec` of a table of policies: its rows in their order. Growing
/// a vector never fails, so the encoder has no error to report.
#[verifier::external_body]
pub(crate) fn encode_policy_rows(table: &Vec<(String, (u8, bool))>) -> (encoded: Vec<u8>)
    ensures
        encoded@ == policy_rows_bytes(policy_rows(table@)),
{
    postcard::to_allocvec(table).unwrap()
}

/// `postcard::from_bytes` at a table of policies. What it reads depends on the
/// bytes and the machine's word width alone, its errors come with their words, and
/// a table in the encoded form is read back.
#[verifier::external_body]
pub(crate) fn decode_policy_rows(data: &[u8]) -> (decoded: Result<
    Vec<(String, (u8, bool))>,
    String,
>)
    ensures
        match decoded {
            Ok(v) => {
                &&& postcard_policy_rows(usize::BITS as nat, data@) is Ok
                &&& postcard_policy_rows(usize::BITS as nat, data@)->Ok_0 == policy_rows(v@)
            },
            Err(e) => {
                &&& postcard_policy_rows(usize::BITS as nat, data@) is Err
                &&& postcard_policy_rows(usize::BITS as nat, data@)->Err_0 == e@
            },
        },
        forall|r: Seq<(Seq<char>, (u8, bool))>|
            data@ == #[trigger] policy_rows_bytes(r) ==> decoded is Ok && policy_rows(
                decoded->Ok_0@,
            ) == r,
{
    postcard::from_bytes::<Vec<(String, (u8, bool))>>(data).map_err(|e| e.to_string())
}

/// What `postcard::take_from_bytes` reads from `data` as a count, on a machine
/// whose words have `word_bits` bits, with the bytes behind it, or the words of
/// its error.
pub uninterp spec fn postcard_count(word_bits: nat, data: Seq<u8>) -> Result<
    (usize, Seq<u8>),
    Seq<char>,
>;

/// `postcard::to_allocvec` of a count: the count in variable width. Growing a
/// vector never fails, so the encoder has no error to report.
#[verifier::external_body]
pub(crate) fn encode_count(count: usize) -> (encoded: Vec<u8>)
    ensures
        encoded@ == varint(count as nat),
{
    postcard::to_allocvec(&count).unwrap()
}

/// `postcard::take_from_bytes` at a count: the count, and the bytes behind it.
/// What it reads depends on the bytes and the machine's word width alone, its
/// errors come with their words, and a count that was written is read back,
/// whatever follows it.
#[verifier::external_body]
pub(crate) fn take_count(data: &[u8]) -> (taken: Result<(usize, Vec<u8>), String>)
    ensures
        match taken {
            Ok(t) => {
                &&& postcard_count(usize::BITS as nat, data@) is Ok
                &&& postcard_count(usize::BITS as nat, data@)->Ok_0 == (t.0, t.1@)
            },
            Err(e) => {
                &&& postcard_count(usize::BITS as nat, data@) is Err
                &&& postcard_count(usize::BITS as nat, data@)->Err_0 == e@
            },
        },
        forall|count: usize, rest: Seq<u8>|
            data@ == #[trigger] (varint(count as nat) + rest) ==> taken is Ok && (taken->Ok_0).0
                == count && (taken->Ok_0).1@ == rest,
{
    match postcard::take_from_bytes::<usize>(data) {
        Ok((count, rest)) => Ok((count, rest.to_vec())),
        Err(e) => Err(e.to_string()),
    }
}

} // verus!
