use vstd::prelude::*;

verus! {

/// One more than the largest number that a varint of at most `k` bytes can
/// carry when its `k`-th byte may not exceed `last_max`.
pub open spec fn varint_cap(k: nat, last_max: nat) -> nat
    decreases k,
{
    if k <= 1 {
        last_max + 1
    } else {
        128 * varint_cap((k - 1) as nat, last_max)
    }
}

/// LEB128 form of `n`: seven bits per byte, least significant group first,
/// the high bit set on every byte but the last.
pub open spec fn varint(n: nat) -> Seq<u8>
    decreases n,
{
    if n < 128 {
        seq![n as u8]
    } else {
        seq![(n % 128 + 128) as u8] + varint(n / 128)
    }
}

/// Reads a varint from the front of `b`, using at most `k` bytes; when the
/// `k`-th byte ends the number it may not exceed `last_max`.
/// Gives the value and the number of bytes read.
pub open spec fn varint_take(b: Seq<u8>, k: nat, last_max: nat) -> Option<(nat, nat)>
    decreases k,
{
    if k == 0 || b.len() == 0 {
        None
    } else if b[0] < 128 {
        if k == 1 && b[0] > last_max {
            None
        } else {
            Some((b[0] as nat, 1))
        }
    } else {
        match varint_take(b.drop_first(), (k - 1) as nat, last_max) {
            Some((v, n)) => Some((((b[0] - 128) + 128 * v) as nat, n + 1)),
            None => None,
        }
    }
}

/// The bytes of a `u16` on the wire: a varint of at most three bytes.
pub open spec fn take_u16_spec(b: Seq<u8>) -> Option<(nat, nat)> {
    varint_take(b, 3, 3)
}

/// The bytes of a `u32` on the wire: a varint of at most five bytes.
pub open spec fn take_u32_spec(b: Seq<u8>) -> Option<(nat, nat)> {
    varint_take(b, 5, 15)
}

/// Zig-zag form of a signed 16-bit integer.
pub open spec fn zigzag(t: i16) -> nat {
    if t >= 0 {
        (2 * t) as nat
    } else {
        (-2 * t - 1) as nat
    }
}

/// Inverse of the zig-zag form.
pub open spec fn unzigzag(n: nat) -> int {
    if n % 2 == 0 {
        (n / 2) as int
    } else {
        -((n / 2) as int) - 1
    }
}

proof fn lemma_varint_len(n: nat, k: nat, last_max: nat)
    requires
        k >= 1,
        last_max < 128,
        n < varint_cap(k, last_max),
    ensures
        1 <= varint(n).len() <= k,
    decreases n,
{
    if n >= 128 {
        let c = varint_cap((k - 1) as nat, last_max);
        assert(n / 128 < c) by (nonlinear_arith)
            requires
                n < 128 * c,
        ;
        lemma_varint_len(n / 128, (k - 1) as nat, last_max);
    }
}

/// A varint that fits the bounds is read back whole, whatever follows it.
pub proof fn lemma_varint_round_trip(n: nat, k: nat, last_max: nat, rest: Seq<u8>)
    requires
        k >= 1,
        last_max < 128,
        n < varint_cap(k, last_max),
    ensures
        varint_take(varint(n) + rest, k, last_max) == Some((n, varint(n).len())),
    decreases n,
{
    let b = varint(n) + rest;
    if n < 128 {
        assert(b[0] == n as u8);
    } else {
        let c = varint_cap((k - 1) as nat, last_max);
        assert(n / 128 < c) by (nonlinear_arith)
            requires
                n < 128 * c,
        ;
        lemma_varint_round_trip(n / 128, (k - 1) as nat, last_max, rest);
        assert(b[0] == (n % 128 + 128) as u8);
        assert(b.drop_first() =~= varint(n / 128) + rest);
    }
}

/// A varint that `u32` allows: at most five bytes.
pub proof fn lemma_u32_round_trip(v: u32, rest: Seq<u8>)
    ensures
        take_u32_spec(varint(v as nat) + rest) == Some((v as nat, varint(v as nat).len())),
        varint(v as nat).len() <= 5,
{
    reveal_with_fuel(varint_cap, 5);
    assert(varint_cap(5, 15) == 4294967296);
    lemma_varint_round_trip(v as nat, 5, 15, rest);
    lemma_varint_len(v as nat, 5, 15);
}

/// A varint that `u16` allows: at most three bytes.
pub proof fn lemma_u16_round_trip(v: nat, rest: Seq<u8>)
    requires
        v <= 0xffff,
    ensures
        take_u16_spec(varint(v) + rest) == Some((v, varint(v).len())),
        varint(v).len() <= 3,
{
    reveal_with_fuel(varint_cap, 3);
    assert(varint_cap(3, 3) == 65536);
    lemma_varint_round_trip(v, 3, 3, rest);
    lemma_varint_len(v, 3, 3);
}

/// A varint read with any bounds never has more bytes than it was given.
pub proof fn lemma_varint_take_len(b: Seq<u8>, k: nat, last_max: nat)
    ensures
        varint_take(b, k, last_max) matches Some((v, n)) ==> 1 <= n <= b.len() && n <= k,
    decreases k,
{
    if k > 0 && b.len() > 0 && b[0] >= 128 {
        lemma_varint_take_len(b.drop_first(), (k - 1) as nat, last_max);
    }
}

/// Relies on postcard::to_slice: a `u8` is written as that one byte.
#[verifier::external_body]
pub(crate) fn postcard_put_u8(v: u8) -> (r: Vec<u8>)
    ensures
        r@ == seq![v],
{
    let mut buf = [0u8; 1];
    match postcard::to_slice(&v, &mut buf) {
        Ok(used) => used.to_vec(),
        Err(_) => Vec::new(),
    }
}

/// Relies on postcard::to_slice: a `u16` is written as its varint.
#[verifier::external_body]
pub(crate) fn postcard_put_u16(v: u16) -> (r: Vec<u8>)
    ensures
        r@ == varint(v as nat),
{
    let mut buf = [0u8; 3];
    match postcard::to_slice(&v, &mut buf) {
        Ok(used) => used.to_vec(),
        Err(_) => Vec::new(),
    }
}

/// Relies on postcard::to_slice: a `u32` is written as its varint.
#[verifier::external_body]
pub(crate) fn postcard_put_u32(v: u32) -> (r: Vec<u8>)
    ensures
        r@ == varint(v as nat),
{
    let mut buf = [0u8; 5];
    match postcard::to_slice(&v, &mut buf) {
        Ok(used) => used.to_vec(),
        Err(_) => Vec::new(),
    }
}

/// Relies on postcard::to_slice: an `i16` is written as the varint of its
/// zig-zag form.
#[verifier::external_body]
pub(crate) fn postcard_put_i16(v: i16) -> (r: Vec<u8>)
    ensures
        r@ == varint(zigzag(v)),
{
    let mut buf = [0u8; 3];
    match postcard::to_slice(&v, &mut buf) {
        Ok(used) => used.to_vec(),
        Err(_) => Vec::new(),
    }
}

/// Relies on postcard::take_from_bytes for `u8`: the first byte, if any.
/// Gives the value and the number of bytes left after it.
#[verifier::external_body]
pub(crate) fn postcard_take_u8(b: &[u8]) -> (r: Option<(u8, usize)>)
    ensures
        b@.len() == 0 ==> r is None,
        b@.len() > 0 ==> r == Some((b@[0], (b@.len() - 1) as usize)),
{
    match postcard::take_from_bytes::<u8>(b) {
        Ok((v, rest)) => Some((v, rest.len())),
        Err(_) => None,
    }
}

/// Relies on postcard::take_from_bytes for `u16`: a varint of at most three
/// bytes. Gives the value and the number of bytes left after it.
#[verifier::external_body]
pub(crate) fn postcard_take_u16(b: &[u8]) -> (r: Option<(u16, usize)>)
    ensures
        match take_u16_spec(b@) {
            Some((v, n)) => r matches Some((x, left)) && x as nat == v && left == b@.len() - n,
            None => r is None,
        },
{
    match postcard::take_from_bytes::<u16>(b) {
        Ok((v, rest)) => Some((v, rest.len())),
        Err(_) => None,
    }
}

/// Relies on postcard::take_from_bytes for `u32`: a varint of at most five
/// bytes. Gives the value and the number of bytes left after it.
#[verifier::external_body]
pub(crate) fn postcard_take_u32(b: &[u8]) -> (r: Option<(u32, usize)>)
    ensures
        match take_u32_spec(b@) {
            Some((v, n)) => r matches Some((x, left)) && x as nat == v && left == b@.len() - n,
            None => r is None,
        },
{
    match postcard::take_from_bytes::<u32>(b) {
        Ok((v, rest)) => Some((v, rest.len())),
        Err(_) => None,
    }
}

/// Relies on postcard::take_from_bytes for `i16`: a varint of at most three
/// bytes, read back from its zig-zag form. Gives the value and the number of
/// bytes left after it.
#[verifier::external_body]
pub(crate) fn postcard_take_i16(b: &[u8]) -> (r: Option<(i16, usize)>)
    ensures
        match take_u16_spec(b@) {
            Some((v, n)) => r matches Some((x, left)) && x as int == unzigzag(v) && left == b@.len()
                - n,
            None => r is None,
        },
{
    match postcard::take_from_bytes::<i16>(b) {
        Ok((v, rest)) => Some((v, rest.len())),
        Err(_) => None,
    }
}

/// A string at the front of `b` as postcard reads it: its length as a
/// varint of at most ten bytes (a 64-bit `usize`), then that many bytes,
/// which must be UTF-8. Gives the bytes of the string and the number of
/// bytes read.
pub open spec fn take_str_spec(b: Seq<u8>) -> Option<(Seq<u8>, nat)> {
    match varint_take(b, 10, 1) {
        Some((len, n)) => if n + len <= b.len() && vstd::utf8::valid_utf8(
            b.subrange(n as int, (n + len) as int),
        ) {
            Some((b.subrange(n as int, (n + len) as int), n + len))
        } else {
            None
        },
        None => None,
    }
}

/// Relies on postcard::to_slice for a byte slice: its length as a varint,
/// then the bytes, which is also how postcard writes a string.
#[verifier::external_body]
pub(crate) fn postcard_put_bytes(b: &[u8]) -> (r: Vec<u8>)
    requires
        b@.len() <= 22,
    ensures
        r@ == varint(b@.len()) + b@,
{
    let mut buf = [0u8; 32];
    match postcard::to_slice(b, &mut buf) {
        Ok(used) => used.to_vec(),
        Err(_) => Vec::new(),
    }
}

/// Relies on postcard::take_from_bytes for `&str`: a length, that many
/// bytes, and a check that they are UTF-8. Gives the bytes of the string and
/// the number of bytes left after it.
#[verifier::external_body]
pub(crate) fn postcard_take_str(b: &[u8]) -> (r: Option<(Vec<u8>, usize)>)
    ensures
        match take_str_spec(b@) {
            Some((t, n)) => r matches Some((v, left)) && v@ == t && left == b@.len() - n,
            None => r is None,
        },
{
    match postcard::take_from_bytes::<&str>(b) {
        Ok((v, rest)) => Some((v.as_bytes().to_vec(), rest.len())),
        Err(_) => None,
    }
}

/// A value that the store can hold: it has an encoding on the wire, a way to
/// read that encoding back, and a bound on its length known before encoding.
pub trait Storable: Sized {
    /// The bytes that encode this value.
    spec fn encoding(&self) -> Seq<u8>;

    /// The value at the front of `b`, with the number of bytes it took.
    spec fn parse(b: Seq<u8>) -> Option<(Self, nat)>;

    /// Bound on the length of every encoding of this type.
    spec fn max_len() -> nat;

    /// The value keeps the type's invariant.
    spec fn valid(&self) -> bool;

    fn max_size() -> (r: usize)
        ensures
            r == Self::max_len(),
    ;

    fn encode(&self) -> (r: Vec<u8>)
        requires
            self.valid(),
        ensures
            r@ == self.encoding(),
    ;

    fn take(b: &[u8]) -> (r: Option<(Self, usize)>)
        ensures
            match Self::parse(b@) {
                Some((v, n)) => r == Some((v, n as usize)) && n <= b@.len(),
                None => r is None,
            },
    ;

    proof fn lemma_round_trip(&self, rest: Seq<u8>)
        requires
            self.valid(),
        ensures
            self.encoding().len() <= Self::max_len(),
            Self::parse(self.encoding() + rest) == Some((*self, self.encoding().len())),
    ;
}

/// The value that a whole stored record decodes to; bytes after the value
/// are ignored.
pub open spec fn decoded<V: Storable>(b: Seq<u8>) -> Option<V> {
    match V::parse(b) {
        Some((v, _)) => Some(v),
        None => None,
    }
}

/// Decodes a value from the front of `b`.
pub fn decode<V: Storable>(b: &[u8]) -> (r: Option<V>)
    ensures
        r == decoded::<V>(b@),
{
    match V::take(b) {
        Some((v, _)) => Some(v),
        None => None,
    }
}

/// Encoding followed by decoding gives the value back.
pub proof fn lemma_decode_encoding<V: Storable>(v: V)
    requires
        v.valid(),
    ensures
        decoded::<V>(v.encoding()) == Some(v),
{
    v.lemma_round_trip(Seq::empty());
    assert(v.encoding() + Seq::<u8>::empty() =~= v.encoding());
}

impl Storable for u8 {
    open spec fn encoding(&self) -> Seq<u8> {
        seq![*self]
    }

    open spec fn parse(b: Seq<u8>) -> Option<(u8, nat)> {
        if b.len() > 0 {
            Some((b[0], 1))
        } else {
            None
        }
    }

    open spec fn max_len() -> nat {
        1
    }

    open spec fn valid(&self) -> bool {
        true
    }

    fn max_size() -> (r: usize) {
        1
    }

    fn encode(&self) -> (r: Vec<u8>) {
        postcard_put_u8(*self)
    }

    fn take(b: &[u8]) -> (r: Option<(u8, usize)>) {
        match postcard_take_u8(b) {
            Some((v, _)) => Some((v, 1)),
            None => None,
        }
    }

    proof fn lemma_round_trip(&self, rest: Seq<u8>) {
        assert((seq![*self] + rest)[0] == *self);
    }
}

impl Storable for u32 {
    open spec fn encoding(&self) -> Seq<u8> {
        varint(*self as nat)
    }

    open spec fn parse(b: Seq<u8>) -> Option<(u32, nat)> {
        match take_u32_spec(b) {
            Some((v, n)) => Some((v as u32, n)),
            None => None,
        }
    }

    open spec fn max_len() -> nat {
        5
    }

    open spec fn valid(&self) -> bool {
        true
    }

    fn max_size() -> (r: usize) {
        5
    }

    fn encode(&self) -> (r: Vec<u8>) {
        postcard_put_u32(*self)
    }

    fn take(b: &[u8]) -> (r: Option<(u32, usize)>) {
        proof {
            lemma_varint_take_len(b@, 5, 15);
        }
        match postcard_take_u32(b) {
            Some((v, left)) => Some((v, b.len() - left)),
            None => None,
        }
    }

    proof fn lemma_round_trip(&self, rest: Seq<u8>) {
        lemma_u32_round_trip(*self, rest);
    }
}

impl<const N: usize> Storable for [u8; N] {
    open spec fn encoding(&self) -> Seq<u8> {
        self@
    }

    open spec fn parse(b: Seq<u8>) -> Option<([u8; N], nat)> {
        if b.len() >= N {
            Some((choose|a: [u8; N]| a@ == b.subrange(0, N as int), N as nat))
        } else {
            None
        }
    }

    open spec fn max_len() -> nat {
        N as nat
    }

    open spec fn valid(&self) -> bool {
        true
    }

    fn max_size() -> (r: usize) {
        N
    }

    fn encode(&self) -> (r: Vec<u8>) {
        let mut out: Vec<u8> = Vec::new();
        let mut i: usize = 0;
        while i < N
            invariant
                i <= N,
                self@.len() == N,
                out@ =~= self@.subrange(0, i as int),
            decreases N - i,
        {
            let mut one = postcard_put_u8(self[i]);
            out.append(&mut one);
            i = i + 1;
        }
        out
    }

    fn take(b: &[u8]) -> (r: Option<([u8; N], usize)>) {
        let mut out = [0u8; N];
        let mut i: usize = 0;
        while i < N
            invariant
                i <= N,
                out@.len() == N,
                i <= b@.len(),
                forall|j: int| 0 <= j < i ==> out@[j] == b@[j],
            decreases N - i,
        {
            let rest = vstd::slice::slice_subrange(b, i, b.len());
            match postcard_take_u8(rest) {
                Some((v, _)) => {
                    out[i] = v;
                },
                None => {
                    return None;
                },
            }
            i = i + 1;
        }
        proof {
            assert(out@ =~= b@.subrange(0, N as int));
            let a = choose|a: [u8; N]| a@ == b@.subrange(0, N as int);
            assert(a@ == out@);
            assert(forall|i: int| 0 <= i < N ==> a[i] == out[i]);
            assert(a =~= out);
        }
        Some((out, N))
    }

    proof fn lemma_round_trip(&self, rest: Seq<u8>) {
        let b = self@ + rest;
        assert(b.subrange(0, N as int) =~= self@);
        let a = choose|a: [u8; N]| a@ == b.subrange(0, N as int);
        assert(a@ == self@);
        assert(forall|i: int| 0 <= i < N ==> a[i] == self[i]);
        assert(a =~= *self);
    }
}

/// Why a value could not be written to, or read from, a byte buffer.
#[derive(Debug, Clone, Copy, PartialEq, Eq, Structural)]
pub enum SerializationError {
    /// The buffer is shorter than the encoding.
    BufferTooSmall,
    /// The bytes are not an encoding of a value of the type.
    InvalidData,
}

/// A value carried to and from flash in its wire encoding.
pub struct PostcardValue<T> {
    value: T,
}

impl<T: Storable> PostcardValue<T> {
    pub closed spec fn inner(&self) -> T {
        self.value
    }

    /// Wraps `value`.
    pub fn from(value: T) -> (r: Self)
        ensures
            r.inner() == value,
    {
        PostcardValue { value }
    }

    /// The wrapped value.
    pub fn into_inner(self) -> (r: T)
        ensures
            r == self.inner(),
    {
        self.value
    }

    /// Writes the encoding to the front of `buffer` and gives its length;
    /// fails, writing nothing, when the buffer is too short.
    pub fn serialize_into(&self, buffer: &mut [u8]) -> (r: Result<usize, SerializationError>)
        requires
            self.inner().valid(),
        ensures
            final(buffer)@.len() == old(buffer)@.len(),
            self.inner().encoding().len() > old(buffer)@.len() ==> r == Err::<usize, SerializationError>(
                SerializationError::BufferTooSmall,
            ) && final(buffer)@ == old(buffer)@,
            self.inner().encoding().len() <= old(buffer)@.len() ==> r == Ok::<usize, SerializationError>(
                self.inner().encoding().len() as usize,
            ) && final(buffer)@ == self.inner().encoding() + old(buffer)@.subrange(
                self.inner().encoding().len() as int,
                old(buffer)@.len() as int,
            ),
    {
        let bytes = self.value.encode();
        if bytes.len() > buffer.len() {
            return Err(SerializationError::BufferTooSmall);
        }
        let mut i: usize = 0;
        while i < bytes.len()
            invariant
                bytes@ == self.value.encoding(),
                bytes@.len() <= buffer@.len(),
                buffer@.len() == old(buffer)@.len(),
                i <= bytes@.len(),
                forall|j: int| 0 <= j < i ==> buffer@[j] == bytes@[j],
                forall|j: int| bytes@.len() <= j < buffer@.len() ==> buffer@[j] == old(buffer)@[j],
            decreases bytes@.len() - i,
        {
            buffer[i] = bytes[i];
            i = i + 1;
        }
        assert(buffer@ =~= self.value.encoding() + old(buffer)@.subrange(
            bytes@.len() as int,
            old(buffer)@.len() as int,
        ));
        Ok(bytes.len())
    }

    /// Reads a value from the front of `buffer`; bytes after it are ignored.
    pub fn deserialize_from(buffer: &[u8]) -> (r: Result<Self, SerializationError>)
        ensures
            match decoded::<T>(buffer@) {
                Some(v) => r matches Ok(p) && p.inner() == v,
                None => r == Err::<Self, SerializationError>(SerializationError::InvalidData),
            },
    {
        match decode::<T>(buffer) {
            Some(value) => Ok(PostcardValue { value }),
            None => Err(SerializationError::InvalidData),
        }
    }
}

} // verus!
