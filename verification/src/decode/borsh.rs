//! Reading the Borsh wire format: little-endian integers, booleans, fixed byte
//! arrays and length-prefixed UTF-8 strings.
use vstd::prelude::*;
use vstd::utf8::{decode_utf8, encode_utf8, encode_utf8_decode_utf8, encode_utf8_valid_utf8, valid_utf8};

use crate::text::{decimal, decimal_string};

verus! {

/// `256` raised to the power `n`.
pub open spec fn byte_power(n: nat) -> nat
    decreases n,
{
    if n == 0 {
        1
    } else {
        256 * byte_power((n - 1) as nat)
    }
}

/// The unsigned little-endian number held by the `n` bytes of `s` from `p` on.
pub open spec fn le_value(s: Seq<u8>, p: int, n: nat) -> nat
    decreases n,
{
    if n == 0 {
        0
    } else {
        s[p] as nat + 256 * le_value(s, p + 1, (n - 1) as nat)
    }
}

/// The `u64` stored at `p` (little-endian).
pub open spec fn u64_at(s: Seq<u8>, p: int) -> u64 {
    le_value(s, p, 8) as u64
}

/// The `i64` stored at `p` (little-endian two's complement).
pub open spec fn i64_at(s: Seq<u8>, p: int) -> i64 {
    (le_value(s, p, 8) as u64) as i64
}

/// A byte that Borsh accepts as a `bool`.
pub open spec fn is_bool_byte(b: u8) -> bool {
    b == 0 || b == 1
}

/// The `bool` stored in byte `p`.
pub open spec fn bool_at(s: Seq<u8>, p: int) -> bool {
    s[p] == 1
}

/// The 32 bytes of a public key stored at `p`.
pub open spec fn key_at(s: Seq<u8>, p: int) -> Seq<u8> {
    s.subrange(p, p + 32)
}

/// Why a Borsh body did not decode.
#[derive(Debug, PartialEq, Eq)]
pub enum BorshFailure {
    /// The bytes ended before a value did.
    UnexpectedLength,
    /// A `bool` was stored as a byte other than 0 or 1.
    InvalidBool(u8),
    /// A string's bytes are not UTF-8; holds the text of the UTF-8 error.
    InvalidUtf8(String),
}

/// The value of a [`BorshFailure`].
pub enum SpecBorshFailure {
    UnexpectedLength,
    InvalidBool(u8),
    InvalidUtf8(Seq<char>),
}

impl View for BorshFailure {
    type V = SpecBorshFailure;

    open spec fn view(&self) -> SpecBorshFailure {
        match self {
            BorshFailure::UnexpectedLength => SpecBorshFailure::UnexpectedLength,
            BorshFailure::InvalidBool(b) => SpecBorshFailure::InvalidBool(*b),
            BorshFailure::InvalidUtf8(t) => SpecBorshFailure::InvalidUtf8(t@),
        }
    }
}

/// The text of the error that Borsh reports for a failure.
pub open spec fn failure_text(f: SpecBorshFailure) -> Seq<char> {
    match f {
        SpecBorshFailure::UnexpectedLength => "Unexpected length of input"@,
        SpecBorshFailure::InvalidBool(b) => "Invalid bool representation: "@ + decimal(b as nat),
        SpecBorshFailure::InvalidUtf8(t) => t,
    }
}

impl BorshFailure {
    /// The text of the error that Borsh reports for this failure.
    pub fn text(&self) -> (t: String)
        ensures
            t@ == failure_text(self@),
    {
        match self {
            BorshFailure::UnexpectedLength => "Unexpected length of input".to_owned(),
            BorshFailure::InvalidBool(b) => {
                let mut t = "Invalid bool representation: ".to_owned();
                let digits = decimal_string(*b as usize);
                t.append(digits.as_str());
                t
            },
            BorshFailure::InvalidUtf8(e) => e.clone(),
        }
    }
}

/// A Borsh string at `p`: a `u32` byte count, then that many bytes of UTF-8.
/// Gives the text and the position just after it, or why it does not decode.
pub open spec fn string_read(s: Seq<u8>, p: int) -> Result<(Seq<char>, int), SpecBorshFailure> {
    if p < 0 || p + 4 > s.len() {
        Err(SpecBorshFailure::UnexpectedLength)
    } else {
        let n = le_value(s, p, 4);
        let body = s.subrange(p + 4, p + 4 + n);
        if p + 4 + n > s.len() {
            Err(SpecBorshFailure::UnexpectedLength)
        } else if !valid_utf8(body) {
            Err(SpecBorshFailure::InvalidUtf8(utf8_error_text(body)))
        } else {
            Ok((decode_utf8(body), p + 4 + n))
        }
    }
}

pub proof fn lemma_le_value_bound(s: Seq<u8>, p: int, n: nat)
    ensures
        le_value(s, p, n) < byte_power(n),
    decreases n,
{
    if n > 0 {
        lemma_le_value_bound(s, p + 1, (n - 1) as nat);
    }
}

/// The text of the error that `String::from_utf8` reports for `bytes`.
pub uninterp spec fn utf8_error_text(bytes: Seq<u8>) -> Seq<char>;

/// Builds a `String` from bytes, as `String::from_utf8` does: an error unless
/// the bytes are well-formed UTF-8, and otherwise the characters they encode.
/// The error is given as its text (`to_string` of the `FromUtf8Error`), named
/// `utf8_error_text`.
#[verifier::external_body]
pub(crate) fn utf8_to_string(bytes: Vec<u8>) -> (text: Result<String, String>)
    ensures
        text is Ok <==> valid_utf8(bytes@),
        text matches Ok(t) ==> t@ == decode_utf8(bytes@),
        text matches Err(e) ==> e@ == utf8_error_text(bytes@),
{
    match String::from_utf8(bytes) {
        Ok(t) => Ok(t),
        Err(e) => Err(e.to_string()),
    }
}

/// A cursor over a byte slice that reads Borsh values front to back.
pub struct BorshReader<'a> {
    pub data: &'a [u8],
    pub pos: usize,
}

impl<'a> BorshReader<'a> {
    pub open spec fn wf(&self) -> bool {
        self.pos <= self.data@.len()
    }

    pub fn new(data: &'a [u8]) -> (r: Self)
        ensures
            r.data@ == data@,
            r.pos == 0,
            r.wf(),
    {
        BorshReader { data, pos: 0 }
    }

    /// Reads an unsigned little-endian number of `n` bytes.
    fn read_le(&mut self, n: usize) -> (r: Option<u64>)
        requires
            old(self).wf(),
            1 <= n <= 8,
        ensures
            final(self).wf(),
            final(self).data@ == old(self).data@,
            old(self).pos + n <= old(self).data@.len() ==> r == Some(
                le_value(old(self).data@, old(self).pos as int, n as nat) as u64,
            ) && final(self).pos == old(self).pos + n,
            old(self).pos + n > old(self).data@.len() ==> r is None && final(self).pos == old(self).pos,
    {
        if n > self.data.len() - self.pos {
            return None;
        }
        let ghost s = self.data@;
        let p = self.pos;
        let len = self.data.len();
        let mut acc: u64 = 0;
        let mut i: usize = n;
        proof {
            reveal_with_fuel(byte_power, 9);
        }
        while i > 0
            invariant
                0 <= i <= n <= 8,
                p + n <= s.len(),
                len == s.len(),
                s == self.data@,
                acc as nat == le_value(s, p + i, (n - i) as nat),
                byte_power(8) == 0x1_0000_0000_0000_0000,
            decreases i,
        {
            proof {
                lemma_le_value_bound(s, p + i, (n - i) as nat);
                lemma_byte_power_mono((n - i) as nat, 7);
            }
            i = i - 1;
            acc = acc * 256 + self.data[p + i] as u64;
        }
        self.pos = p + n;
        Some(acc)
    }

    pub fn read_u64(&mut self) -> (r: Result<u64, BorshFailure>)
        requires
            old(self).wf(),
        ensures
            final(self).wf(),
            final(self).data@ == old(self).data@,
            old(self).pos + 8 <= old(self).data@.len() ==> r == Ok::<u64, BorshFailure>(
                u64_at(old(self).data@, old(self).pos as int),
            ) && final(self).pos == old(self).pos + 8,
            old(self).pos + 8 > old(self).data@.len() ==> r matches Err(BorshFailure::UnexpectedLength),
    {
        match self.read_le(8) {
            Some(v) => Ok(v),
            None => Err(BorshFailure::UnexpectedLength),
        }
    }

    pub fn read_i64(&mut self) -> (r: Result<i64, BorshFailure>)
        requires
            old(self).wf(),
        ensures
            final(self).wf(),
            final(self).data@ == old(self).data@,
            old(self).pos + 8 <= old(self).data@.len() ==> r == Ok::<i64, BorshFailure>(
                i64_at(old(self).data@, old(self).pos as int),
            ) && final(self).pos == old(self).pos + 8,
            old(self).pos + 8 > old(self).data@.len() ==> r matches Err(BorshFailure::UnexpectedLength),
    {
        match self.read_le(8) {
            Some(v) => Ok(v as i64),
            None => Err(BorshFailure::UnexpectedLength),
        }
    }

    pub fn read_bool(&mut self) -> (r: Result<bool, BorshFailure>)
        requires
            old(self).wf(),
        ensures
            final(self).wf(),
            final(self).data@ == old(self).data@,
            old(self).pos + 1 <= old(self).data@.len() && is_bool_byte(
                old(self).data@[old(self).pos as int],
            ) ==> r == Ok::<bool, BorshFailure>(bool_at(old(self).data@, old(self).pos as int))
                && final(self).pos == old(self).pos + 1,
            old(self).pos + 1 > old(self).data@.len() ==> r matches Err(BorshFailure::UnexpectedLength),
            old(self).pos + 1 <= old(self).data@.len() && !is_bool_byte(
                old(self).data@[old(self).pos as int],
            ) ==> (r matches Err(BorshFailure::InvalidBool(b)) && b == old(self).data@[old(
                self,
            ).pos as int]),
    {
        if self.pos >= self.data.len() {
            return Err(BorshFailure::UnexpectedLength);
        }
        let b = self.data[self.pos];
        if b == 0 {
            self.pos = self.pos + 1;
            Ok(false)
        } else if b == 1 {
            self.pos = self.pos + 1;
            Ok(true)
        } else {
            Err(BorshFailure::InvalidBool(b))
        }
    }

    pub fn read_key(&mut self) -> (r: Result<[u8; 32], BorshFailure>)
        requires
            old(self).wf(),
        ensures
            final(self).wf(),
            final(self).data@ == old(self).data@,
            old(self).pos + 32 <= old(self).data@.len() ==> r is Ok && r->Ok_0@ == key_at(
                old(self).data@,
                old(self).pos as int,
            ) && final(self).pos == old(self).pos + 32,
            old(self).pos + 32 > old(self).data@.len() ==> r matches Err(BorshFailure::UnexpectedLength),
    {
        if self.data.len() - self.pos < 32 {
            return Err(BorshFailure::UnexpectedLength);
        }
        let p = self.pos;
        let len = self.data.len();
        let mut key = [0u8; 32];
        let mut i: usize = 0;
        while i < 32
            invariant
                0 <= i <= 32,
                p + 32 <= self.data@.len(),
                len == self.data@.len(),
                key@.len() == 32,
                forall|j: int| 0 <= j < i ==> key@[j] == self.data@[p + j],
            decreases 32 - i,
        {
            key[i] = self.data[p + i];
            i = i + 1;
        }
        assert(key@ =~= key_at(self.data@, p as int));
        self.pos = p + 32;
        Ok(key)
    }

    pub fn read_string(&mut self) -> (r: Result<String, BorshFailure>)
        requires
            old(self).wf(),
        ensures
            final(self).wf(),
            final(self).data@ == old(self).data@,
            match string_read(old(self).data@, old(self).pos as int) {
                Ok((text, end)) => r matches Ok(t) && t@ == text && final(self).pos == end,
                Err(f) => r matches Err(g) && g@ == f,
            },
    {
        let ghost s = self.data@;
        let ghost p = self.pos as int;
        let n = match self.read_le(4) {
            Some(n) => n,
            None => return Err(BorshFailure::UnexpectedLength),
        };
        proof {
            lemma_le_value_bound(s, p, 4);
            reveal_with_fuel(byte_power, 5);
        }
        let n = n as usize;
        if n > self.data.len() - self.pos {
            return Err(BorshFailure::UnexpectedLength);
        }
        let start = self.pos;
        let body = vstd::slice::slice_subrange(self.data, start, start + n);
        let bytes = vstd::slice::slice_to_vec(body);
        match utf8_to_string(bytes) {
            Ok(text) => {
                self.pos = start + n;
                Ok(text)
            },
            Err(e) => Err(BorshFailure::InvalidUtf8(e)),
        }
    }
}

/// Whether `bytes` opens with the eight-byte event discriminator `disc`.
pub fn has_discriminator(bytes: &[u8], disc: &[u8; 8]) -> (r: bool)
    requires
        bytes@.len() >= 8,
    ensures
        r == (bytes@.take(8) == disc@),
{
    let mut i: usize = 0;
    while i < 8
        invariant
            0 <= i <= 8,
            bytes@.len() >= 8,
            disc@.len() == 8,
            forall|j: int| 0 <= j < i ==> bytes@[j] == disc@[j],
        decreases 8 - i,
    {
        if bytes[i] != disc[i] {
            assert(bytes@.take(8)[i as int] != disc@[i as int]);
            return false;
        }
        i = i + 1;
    }
    assert(bytes@.take(8) =~= disc@);
    true
}

/// Bytes appended after position `p + n` do not change the number stored there.
pub proof fn lemma_le_value_extend(s: Seq<u8>, t: Seq<u8>, p: int, n: nat)
    requires
        0 <= p,
        p + n <= s.len(),
    ensures
        le_value(s + t, p, n) == le_value(s, p, n),
    decreases n,
{
    if n > 0 {
        assert((s + t)[p] == s[p]);
        lemma_le_value_extend(s, t, p + 1, (n - 1) as nat);
    }
}

/// Appending bytes leaves every value that already decoded from `s` in place.
pub proof fn lemma_values_extend(s: Seq<u8>, t: Seq<u8>)
    ensures
        forall|p: int, n: nat|
            0 <= p && p + n <= s.len() ==> #[trigger] le_value(s + t, p, n) == le_value(s, p, n),
        forall|p: int| 0 <= p && p + 32 <= s.len() ==> #[trigger] key_at(s + t, p) == key_at(s, p),
        forall|p: int| 0 <= p < s.len() ==> #[trigger] (s + t)[p] == s[p],
        forall|p: int| #[trigger]
            string_read(s, p) is Ok ==> string_read(s + t, p) == string_read(s, p),
{
    assert forall|p: int, n: nat| 0 <= p && p + n <= s.len() implies #[trigger] le_value(
        s + t,
        p,
        n,
    ) == le_value(s, p, n) by {
        lemma_le_value_extend(s, t, p, n);
    }
    assert forall|p: int| 0 <= p && p + 32 <= s.len() implies #[trigger] key_at(s + t, p) == key_at(
        s,
        p,
    ) by {
        assert(key_at(s + t, p) =~= key_at(s, p));
    }
    assert forall|p: int| #[trigger] string_read(s, p) is Ok implies string_read(s + t, p)
        == string_read(s, p) by {
        lemma_le_value_extend(s, t, p, 4);
        let n = le_value(s, p, 4);
        assert((s + t).subrange(p + 4, p + 4 + n) =~= s.subrange(p + 4, p + 4 + n));
    }
}

/// The `n` bytes that Borsh writes for the unsigned number `v`, least
/// significant first.
pub open spec fn le_bytes(v: nat, n: nat) -> Seq<u8>
    decreases n,
{
    if n == 0 {
        seq![]
    } else {
        seq![(v % 256) as u8] + le_bytes(v / 256, (n - 1) as nat)
    }
}

/// The Borsh encoding of a `u64`.
pub open spec fn u64_bytes(v: u64) -> Seq<u8> {
    le_bytes(v as nat, 8)
}

/// The Borsh encoding of an `i64` (two's complement, little-endian).
pub open spec fn i64_bytes(v: i64) -> Seq<u8> {
    le_bytes((v as u64) as nat, 8)
}

/// The Borsh encoding of a `bool`.
pub open spec fn bool_bytes(b: bool) -> Seq<u8> {
    if b {
        seq![1u8]
    } else {
        seq![0u8]
    }
}

/// The Borsh encoding of a string: its UTF-8 byte count as a `u32`, then the
/// bytes.
pub open spec fn string_bytes(t: Seq<char>) -> Seq<u8> {
    le_bytes(encode_utf8(t).len(), 4) + encode_utf8(t)
}

/// A string that Borsh can encode: its byte count fits in a `u32`.
pub open spec fn encodable_string(t: Seq<char>) -> bool {
    encode_utf8(t).len() < 0x1_0000_0000
}

pub proof fn lemma_le_bytes_len(v: nat, n: nat)
    ensures
        le_bytes(v, n).len() == n,
    decreases n,
{
    if n > 0 {
        lemma_le_bytes_len(v / 256, (n - 1) as nat);
    }
}

/// Reading `n` little-endian bytes where the encoding of `v` stands gives `v`.
pub proof fn lemma_le_bytes_read(s: Seq<u8>, p: int, v: nat, n: nat)
    requires
        0 <= p,
        p + n <= s.len(),
        s.subrange(p, p + n) == le_bytes(v, n),
        v < byte_power(n),
    ensures
        le_value(s, p, n) == v,
    decreases n,
{
    if n > 0 {
        let m = (n - 1) as nat;
        lemma_le_bytes_len(v / 256, m);
        assert(s[p] == s.subrange(p, p + n)[0]);
        assert(s.subrange(p + 1, p + n) =~= le_bytes(v / 256, m)) by {
            assert forall|i: int| 0 <= i < m implies #[trigger] s.subrange(p + 1, p + n)[i]
                == le_bytes(v / 256, m)[i] by {
                assert(s.subrange(p + 1, p + n)[i] == s.subrange(p, p + n)[i + 1]);
            }
        }
        let b = byte_power(m);
        assert(v / 256 < b) by (nonlinear_arith)
            requires
                v < 256 * b,
        ;
        lemma_le_bytes_read(s, p + 1, v / 256, m);
        assert(v == v % 256 + 256 * (v / 256)) by (nonlinear_arith);
    }
}

/// Reading a `u64` where its encoding stands gives it back.
pub proof fn lemma_u64_bytes_read(s: Seq<u8>, p: int, v: u64)
    requires
        0 <= p,
        p + 8 <= s.len(),
        s.subrange(p, p + 8) == u64_bytes(v),
    ensures
        u64_at(s, p) == v,
{
    reveal_with_fuel(byte_power, 9);
    lemma_le_bytes_read(s, p, v as nat, 8);
}

/// Reading an `i64` where its encoding stands gives it back.
pub proof fn lemma_i64_bytes_read(s: Seq<u8>, p: int, v: i64)
    requires
        0 <= p,
        p + 8 <= s.len(),
        s.subrange(p, p + 8) == i64_bytes(v),
    ensures
        i64_at(s, p) == v,
{
    reveal_with_fuel(byte_power, 9);
    let u = v as u64;
    lemma_le_bytes_read(s, p, u as nat, 8);
    assert((u as i64) == v) by (bit_vector)
        requires
            u == v as u64,
    ;
}

/// Reading a `bool` where its encoding stands gives it back.
pub proof fn lemma_bool_bytes_read(s: Seq<u8>, p: int, b: bool)
    requires
        0 <= p,
        p + 1 <= s.len(),
        s.subrange(p, p + 1) == bool_bytes(b),
    ensures
        is_bool_byte(s[p]),
        bool_at(s, p) == b,
{
    assert(s[p] == s.subrange(p, p + 1)[0]);
}

/// Reading a string where its encoding stands gives it back, and the
/// position after it.
pub proof fn lemma_string_bytes_read(s: Seq<u8>, p: int, t: Seq<char>)
    requires
        0 <= p,
        encodable_string(t),
        p + string_bytes(t).len() <= s.len(),
        s.subrange(p, p + string_bytes(t).len()) == string_bytes(t),
    ensures
        string_bytes(t).len() == 4 + encode_utf8(t).len(),
        string_read(s, p) == Ok::<(Seq<char>, int), SpecBorshFailure>(
            (t, p + string_bytes(t).len()),
        ),
{
    let u = encode_utf8(t);
    let n = u.len();
    lemma_le_bytes_len(n, 4);
    let whole = s.subrange(p, p + 4 + n);
    assert(s.subrange(p, p + 4) =~= le_bytes(n, 4)) by {
        assert forall|i: int| 0 <= i < 4 implies #[trigger] s.subrange(p, p + 4)[i] == le_bytes(n, 4)[i] by {
            assert(s.subrange(p, p + 4)[i] == whole[i]);
        }
    }
    reveal_with_fuel(byte_power, 5);
    lemma_le_bytes_read(s, p, n, 4);
    assert(s.subrange(p + 4, p + 4 + n) =~= u) by {
        assert forall|i: int| 0 <= i < n implies #[trigger] s.subrange(p + 4, p + 4 + n)[i] == u[i] by {
            assert(s.subrange(p + 4, p + 4 + n)[i] == whole[i + 4]);
        }
    }
    encode_utf8_valid_utf8(t);
    encode_utf8_decode_utf8(t);
}

/// The lengths of the encodings of fixed-size fields and of strings.
pub proof fn lemma_field_bytes_len()
    ensures
        forall|v: u64| #[trigger] u64_bytes(v).len() == 8,
        forall|v: i64| #[trigger] i64_bytes(v).len() == 8,
        forall|v: bool| #[trigger] bool_bytes(v).len() == 1,
        forall|t: Seq<char>| #[trigger] string_bytes(t).len() == 4 + encode_utf8(t).len(),
{
    assert forall|v: u64| #[trigger] u64_bytes(v).len() == 8 by {
        lemma_le_bytes_len(v as nat, 8);
    }
    assert forall|v: i64| #[trigger] i64_bytes(v).len() == 8 by {
        lemma_le_bytes_len((v as u64) as nat, 8);
    }
    assert forall|t: Seq<char>| #[trigger] string_bytes(t).len() == 4 + encode_utf8(t).len() by {
        lemma_le_bytes_len(encode_utf8(t).len(), 4);
    }
}

/// Event data made of an eight-byte discriminator and a body splits back
/// into them.
pub proof fn lemma_event_data(disc: Seq<u8>, body: Seq<u8>)
    requires
        disc.len() == 8,
    ensures
        (disc + body).take(8) == disc,
        (disc + body).skip(8) == body,
        (disc + body).len() >= 8,
{
    assert((disc + body).take(8) =~= disc);
    assert((disc + body).skip(8) =~= body);
}

/// Bytes put before `s` move every value read from it by their length.
pub proof fn lemma_le_value_shift(pre: Seq<u8>, s: Seq<u8>, p: int, n: nat)
    requires
        0 <= p,
        p + n <= s.len(),
    ensures
        le_value(pre + s, pre.len() + p, n) == le_value(s, p, n),
    decreases n,
{
    if n > 0 {
        assert((pre + s)[pre.len() + p] == s[p]);
        lemma_le_value_shift(pre, s, p + 1, (n - 1) as nat);
    }
}

/// Bytes put before `s` move every value read from it by their length.
pub proof fn lemma_values_shift(pre: Seq<u8>, s: Seq<u8>)
    ensures
        forall|p: int, n: nat|
            0 <= p && p + n <= s.len() ==> le_value(pre + s, pre.len() + p, n) == #[trigger] le_value(
                s,
                p,
                n,
            ),
        forall|p: int|
            0 <= p && p + 32 <= s.len() ==> key_at(pre + s, pre.len() + p) == #[trigger] key_at(
                s,
                p,
            ),
{
    assert forall|p: int, n: nat| 0 <= p && p + n <= s.len() implies le_value(
        pre + s,
        pre.len() + p,
        n,
    ) == #[trigger] le_value(s, p, n) by {
        lemma_le_value_shift(pre, s, p, n);
    }
    assert forall|p: int| 0 <= p && p + 32 <= s.len() implies key_at(pre + s, pre.len() + p)
        == #[trigger] key_at(s, p) by {
        assert(key_at(pre + s, pre.len() + p) =~= key_at(s, p));
    }
}

/// A string's encoding placed after some bytes reads back as that string.
pub proof fn lemma_string_bytes_after(pre: Seq<u8>, t: Seq<char>)
    requires
        encodable_string(t),
    ensures
        string_read(pre + string_bytes(t), pre.len() as int) == Ok::<
            (Seq<char>, int),
            SpecBorshFailure,
        >((t, pre.len() + string_bytes(t).len() as int)),
{
    let sb = string_bytes(t);
    let s = pre + sb;
    lemma_field_bytes_len();
    assert(s.subrange(pre.len() as int, pre.len() + sb.len() as int) =~= sb);
    lemma_string_bytes_read(s, pre.len() as int, t);
}

/// Bytes appended after a string that reads leave it as it was.
pub proof fn lemma_string_read_extend(s: Seq<u8>, t: Seq<u8>, p: int)
    requires
        string_read(s, p) is Ok,
    ensures
        string_read(s + t, p) == string_read(s, p),
{
    lemma_le_value_extend(s, t, p, 4);
    let n = le_value(s, p, 4);
    assert((s + t).subrange(p + 4, p + 4 + n) =~= s.subrange(p + 4, p + 4 + n));
}

/// Data cut off inside a string's encoding does not hold that string: reading
/// it fails for want of bytes.
pub proof fn lemma_string_bytes_cut(s: Seq<u8>, p: int, t: Seq<char>, n: int)
    requires
        0 <= p <= n,
        encodable_string(t),
        n < p + string_bytes(t).len() <= s.len(),
        s.subrange(p, p + string_bytes(t).len()) == string_bytes(t),
    ensures
        string_read(s.take(n), p) == Err::<(Seq<char>, int), SpecBorshFailure>(
            SpecBorshFailure::UnexpectedLength,
        ),
{
    lemma_string_bytes_read(s, p, t);
    let c = s.take(n);
    if p + 4 <= n {
        assert(c + s.skip(n) =~= s);
        lemma_le_value_extend(c, s.skip(n), p, 4);
    }
}

pub proof fn lemma_byte_power_mono(a: nat, b: nat)
    requires
        a <= b,
    ensures
        byte_power(a) <= byte_power(b),
    decreases b,
{
    if a < b {
        lemma_byte_power_mono(a, (b - 1) as nat);
    }
}

} // verus!
