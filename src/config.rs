use vstd::prelude::*;
use vstd::string::StringSliceAdditionalSpecFns;
use crate::codec::{
    lemma_u16_round_trip, lemma_u32_round_trip, lemma_varint_take_len, postcard_put_bytes,
    postcard_put_i16, postcard_take_str, take_str_spec, varint_take,
    postcard_put_u16, postcard_put_u32, postcard_take_i16, postcard_take_u16, postcard_take_u32,
    take_u16_spec, take_u32_spec, unzigzag, varint, zigzag, Storable,
};
use crate::storage::{got, inserted, Storage, StorageError};

verus! {

/// Key of the device serial number.
pub const KEY_SNUM: &'static str = "cfg/snum";

/// Key of the device name.
pub const KEY_NAME: &'static str = "cfg/name";

/// Key of the serial line's baud rate.
pub const KEY_BAUD: &'static str = "cfg/baud";

/// Key of the periodic message settings.
pub const KEY_AMSG: &'static str = "cfg/amsg";

/// Key of the sensor polling interval.
pub const KEY_SENS_INTERVAL: &'static str = "cfg/sens_int";

/// Key of the heater settings.
pub const KEY_HEAT: &'static str = "cfg/heat";

/// A signed 16-bit integer at the front of `b`, read from the zig-zag form
/// of its varint, with the number of bytes it took.
pub open spec fn take_i16_spec(b: Seq<u8>) -> Option<(i16, nat)> {
    match take_u16_spec(b) {
        Some((v, n)) => Some((unzigzag(v) as i16, n)),
        None => None,
    }
}

/// The zig-zag form of an `i16` fits 16 bits and reads back as the value.
pub proof fn lemma_zigzag(t: i16)
    ensures
        zigzag(t) <= 0xffff,
        unzigzag(zigzag(t)) == t as int,
{
}

fn take_u16(b: &[u8]) -> (r: Option<(u16, usize)>)
    ensures
        match take_u16_spec(b@) {
            Some((v, n)) => r == Some((v as u16, n as usize)) && n <= b@.len(),
            None => r is None,
        },
{
    proof {
        lemma_varint_take_len(b@, 3, 3);
    }
    match postcard_take_u16(b) {
        Some((v, left)) => Some((v, b.len() - left)),
        None => None,
    }
}

fn take_i16(b: &[u8]) -> (r: Option<(i16, usize)>)
    ensures
        match take_i16_spec(b@) {
            Some((v, n)) => r == Some((v, n as usize)) && n <= b@.len(),
            None => r is None,
        },
{
    proof {
        lemma_varint_take_len(b@, 3, 3);
    }
    match postcard_take_i16(b) {
        Some((v, left)) => Some((v, b.len() - left)),
        None => None,
    }
}

/// Settings of a periodic message.
#[derive(Debug, Clone, Copy, PartialEq, Eq, Structural)]
pub struct Amsg {
    pub id: u16,
    pub interval: u16,
}

impl Storable for Amsg {
    open spec fn encoding(&self) -> Seq<u8> {
        varint(self.id as nat) + varint(self.interval as nat)
    }

    open spec fn parse(b: Seq<u8>) -> Option<(Amsg, nat)> {
        match take_u16_spec(b) {
            Some((id, n1)) => match take_u16_spec(b.skip(n1 as int)) {
                Some((iv, n2)) => Some((Amsg { id: id as u16, interval: iv as u16 }, n1 + n2)),
                None => None,
            },
            None => None,
        }
    }

    open spec fn max_len() -> nat {
        6
    }

    open spec fn valid(&self) -> bool {
        true
    }

    fn max_size() -> (r: usize) {
        6
    }

    fn encode(&self) -> (r: Vec<u8>) {
        let mut out = postcard_put_u16(self.id);
        let mut tail = postcard_put_u16(self.interval);
        out.append(&mut tail);
        out
    }

    fn take(b: &[u8]) -> (r: Option<(Amsg, usize)>) {
        match take_u16(b) {
            None => None,
            Some((id, n1)) => {
                let rest = vstd::slice::slice_subrange(b, n1, b.len());
                assert(rest@ =~= b@.skip(n1 as int));
                match take_u16(rest) {
                    None => None,
                    Some((interval, n2)) => Some((Amsg { id, interval }, n1 + n2)),
                }
            },
        }
    }

    proof fn lemma_round_trip(&self, rest: Seq<u8>) {
        let a = varint(self.id as nat);
        let c = varint(self.interval as nat);
        let b = self.encoding() + rest;
        assert(b =~= a + (c + rest));
        lemma_u16_round_trip(self.id as nat, c + rest);
        assert(b.skip(a.len() as int) =~= c + rest);
        lemma_u16_round_trip(self.interval as nat, rest);
    }
}

/// Operating mode of the heater.
#[derive(Debug, Clone, Copy, PartialEq, Eq, Structural)]
pub enum HeatMode {
    Off,
    On,
    Auto,
    PwrSave,
}

/// Position of a mode in the declaration, which is how it is encoded.
pub open spec fn heat_mode_index(m: HeatMode) -> u32 {
    match m {
        HeatMode::Off => 0,
        HeatMode::On => 1,
        HeatMode::Auto => 2,
        HeatMode::PwrSave => 3,
    }
}

/// The mode at a position, if there is one.
pub open spec fn heat_mode_at(i: nat) -> Option<HeatMode> {
    if i == 0 {
        Some(HeatMode::Off)
    } else if i == 1 {
        Some(HeatMode::On)
    } else if i == 2 {
        Some(HeatMode::Auto)
    } else if i == 3 {
        Some(HeatMode::PwrSave)
    } else {
        None
    }
}

impl Storable for HeatMode {
    open spec fn encoding(&self) -> Seq<u8> {
        varint(heat_mode_index(*self) as nat)
    }

    open spec fn parse(b: Seq<u8>) -> Option<(HeatMode, nat)> {
        match take_u32_spec(b) {
            Some((i, n)) => match heat_mode_at(i) {
                Some(m) => Some((m, n)),
                None => None,
            },
            None => None,
        }
    }

    open spec fn max_len() -> nat {
        5
    }

    open spec fn valid(&self) -> bool {
        true
    }

    fn max_size() -> (r: usize) {
        5
    }

    fn encode(&self) -> (r: Vec<u8>) {
        let index: u32 = match self {
            HeatMode::Off => 0,
            HeatMode::On => 1,
            HeatMode::Auto => 2,
            HeatMode::PwrSave => 3,
        };
        postcard_put_u32(index)
    }

    fn take(b: &[u8]) -> (r: Option<(HeatMode, usize)>) {
        proof {
            lemma_varint_take_len(b@, 5, 15);
        }
        match postcard_take_u32(b) {
            None => None,
            Some((i, left)) => {
                let n = b.len() - left;
                if i == 0 {
                    Some((HeatMode::Off, n))
                } else if i == 1 {
                    Some((HeatMode::On, n))
                } else if i == 2 {
                    Some((HeatMode::Auto, n))
                } else if i == 3 {
                    Some((HeatMode::PwrSave, n))
                } else {
                    None
                }
            },
        }
    }

    proof fn lemma_round_trip(&self, rest: Seq<u8>) {
        lemma_u32_round_trip(heat_mode_index(*self), rest);
    }
}

/// Heater settings kept across restarts.
#[derive(Debug, Clone, Copy, PartialEq, Eq, Structural)]
pub struct HeaterNvdata {
    pub mode: HeatMode,
    pub hysteresis: u8,
    pub threshold: i16,
}

impl Storable for HeaterNvdata {
    open spec fn encoding(&self) -> Seq<u8> {
        self.mode.encoding() + seq![self.hysteresis] + varint(zigzag(self.threshold))
    }

    open spec fn parse(b: Seq<u8>) -> Option<(HeaterNvdata, nat)> {
        match HeatMode::parse(b) {
            Some((m, n1)) => if b.len() > n1 {
                match take_i16_spec(b.skip((n1 + 1) as int)) {
                    Some((t, n3)) => Some(
                        (HeaterNvdata { mode: m, hysteresis: b[n1 as int], threshold: t }, n1 + 1 + n3),
                    ),
                    None => None,
                }
            } else {
                None
            },
            None => None,
        }
    }

    open spec fn max_len() -> nat {
        9
    }

    open spec fn valid(&self) -> bool {
        true
    }

    fn max_size() -> (r: usize) {
        9
    }

    fn encode(&self) -> (r: Vec<u8>) {
        let mut out = self.mode.encode();
        let mut middle = self.hysteresis.encode();
        out.append(&mut middle);
        let mut tail = postcard_put_i16(self.threshold);
        out.append(&mut tail);
        out
    }

    fn take(b: &[u8]) -> (r: Option<(HeaterNvdata, usize)>) {
        match HeatMode::take(b) {
            None => None,
            Some((mode, n1)) => {
                let after_mode = vstd::slice::slice_subrange(b, n1, b.len());
                let hysteresis = match u8::take(after_mode) {
                    Some((h, _)) => h,
                    None => {
                        return None;
                    },
                };
                let rest = vstd::slice::slice_subrange(b, n1 + 1, b.len());
                assert(rest@ =~= b@.skip(n1 + 1));
                match take_i16(rest) {
                    None => None,
                    Some((threshold, n3)) => Some(
                        (HeaterNvdata { mode, hysteresis, threshold }, n1 + 1 + n3),
                    ),
                }
            },
        }
    }

    proof fn lemma_round_trip(&self, rest: Seq<u8>) {
        let a = self.mode.encoding();
        let z = varint(zigzag(self.threshold));
        let b = self.encoding() + rest;
        assert(b =~= a + (seq![self.hysteresis] + z + rest));
        self.mode.lemma_round_trip(seq![self.hysteresis] + z + rest);
        assert(b[a.len() as int] == self.hysteresis);
        assert(b.skip((a.len() + 1) as int) =~= z + rest);
        lemma_zigzag(self.threshold);
        lemma_u16_round_trip(zigzag(self.threshold), rest);
    }
}

/// Text of at most `N` bytes of UTF-8, kept in an array padded with zeros.
#[derive(Debug, Clone, Copy, PartialEq, Eq)]
pub struct StorableString<const N: usize> {
    bytes: [u8; N],
    len: usize,
}

impl<const N: usize> StorableString<N> {
    /// The bytes of the text.
    pub closed spec fn text(&self) -> Seq<u8> {
        self.bytes@.subrange(0, self.len as int)
    }

    /// The length fits, the text is UTF-8 and the rest of the array is zero.
    pub closed spec fn wf(&self) -> bool {
        &&& self.len <= N
        &&& vstd::utf8::valid_utf8(self.text())
        &&& forall|i: int| self.len <= i < N ==> self.bytes@[i] == 0
    }

    /// The text of `s`, or `None` when it is longer than `N` bytes.
    pub fn new(s: &str) -> (r: Option<Self>)
        ensures
            s.spec_bytes().len() > N <==> r is None,
            r matches Some(t) ==> t.wf() && t.text() == s.spec_bytes(),
    {
        let b = s.as_bytes();
        proof {
            vstd::utf8::encode_utf8_valid_utf8(s@);
        }
        Self::from_utf8_bytes(b)
    }

    fn from_utf8_bytes(b: &[u8]) -> (r: Option<Self>)
        requires
            vstd::utf8::valid_utf8(b@),
        ensures
            b@.len() > N <==> r is None,
            r matches Some(t) ==> t.wf() && t.text() == b@,
    {
        if b.len() > N {
            return None;
        }
        let mut bytes = [0u8; N];
        let mut i: usize = 0;
        while i < b.len()
            invariant
                b@.len() <= N,
                bytes@.len() == N,
                i <= b@.len(),
                forall|j: int| 0 <= j < i ==> bytes@[j] == b@[j],
                forall|j: int| b@.len() <= j < N ==> bytes@[j] == 0,
            decreases b@.len() - i,
        {
            bytes[i] = b[i];
            i = i + 1;
        }
        let r = StorableString { bytes, len: b.len() };
        assert(r.text() =~= b@);
        Some(r)
    }

    /// The bytes of the text.
    pub fn as_bytes(&self) -> (r: Vec<u8>)
        requires
            self.wf(),
        ensures
            r@ == self.text(),
    {
        let mut out: Vec<u8> = Vec::new();
        let mut i: usize = 0;
        while i < self.len
            invariant
                self.len <= N,
                i <= self.len,
                out@ =~= self.bytes@.subrange(0, i as int),
            decreases self.len - i,
        {
            out.push(self.bytes[i]);
            i = i + 1;
        }
        out
    }

    /// Two well-formed strings with the same text are the same.
    pub proof fn lemma_text_determines(&self, other: &Self)
        requires
            self.wf(),
            other.wf(),
            self.text() == other.text(),
        ensures
            *self == *other,
    {
        broadcast use vstd::array::group_array_axioms;

        assert(self.bytes@.len() == N && other.bytes@.len() == N);
        assert(self.len == other.len) by {
            assert(self.text().len() == other.text().len());
        }
        assert forall|i: int| 0 <= i < N implies self.bytes@[i] == other.bytes@[i] by {
            if i < self.len {
                assert(self.text()[i] == self.bytes@[i]);
                assert(other.text()[i] == other.bytes@[i]);
                assert(self.text()[i] == other.text()[i]);
            } else {
                assert(self.bytes@[i] == 0);
                assert(other.bytes@[i] == 0);
            }
        }
        assert(self.bytes@ =~= other.bytes@);
        assert forall|i: int| 0 <= i < N implies self.bytes[i] == other.bytes[i] by {
            assert(self.bytes@[i] == other.bytes@[i]);
        }
        assert(self.bytes =~= other.bytes);
    }
}

impl Storable for StorableString<22> {
    open spec fn encoding(&self) -> Seq<u8> {
        varint(self.text().len()) + self.text()
    }

    open spec fn parse(b: Seq<u8>) -> Option<(StorableString<22>, nat)> {
        match take_str_spec(b) {
            Some((t, n)) => if t.len() <= 22 {
                Some((choose|s: StorableString<22>| s.wf() && s.text() == t, n))
            } else {
                None
            },
            None => None,
        }
    }

    open spec fn max_len() -> nat {
        32
    }

    open spec fn valid(&self) -> bool {
        self.wf()
    }

    fn max_size() -> (r: usize) {
        32
    }

    fn encode(&self) -> (r: Vec<u8>) {
        let text = self.as_bytes();
        postcard_put_bytes(text.as_slice())
    }

    fn take(b: &[u8]) -> (r: Option<(StorableString<22>, usize)>) {
        proof {
            lemma_varint_take_len(b@, 10, 1);
        }
        match postcard_take_str(b) {
            None => None,
            Some((text, left)) => {
                let n = b.len() - left;
                match Self::from_utf8_bytes(text.as_slice()) {
                    None => None,
                    Some(s) => {
                        proof {
                            let c = choose|c: StorableString<22>| c.wf() && c.text() == text@;
                            s.lemma_text_determines(&c);
                        }
                        Some((s, n))
                    },
                }
            },
        }
    }

    proof fn lemma_round_trip(&self, rest: Seq<u8>) {
        let t = self.text();
        let len = t.len();
        let b = self.encoding() + rest;
        assert(varint(len) == seq![len as u8]);
        assert(b[0] == len as u8);
        assert(b.drop_first() =~= t + rest);
        assert(varint_take(b, 10, 1) == Some((len, 1nat)));
        assert(b.subrange(1, (1 + len) as int) =~= t);
        let c = choose|c: StorableString<22>| c.wf() && c.text() == t;
        assert(self.wf() && self.text() == t);
        c.lemma_text_determines(self);
    }
}

/// Reads the device name.
pub fn get_device_name(storage: &mut Storage) -> (r: Result<Option<StorableString<22>>, StorageError>)
    requires
        old(storage).wf(),
    ensures
        final(storage).wf(),
        final(storage).spec_region() == old(storage).spec_region(),
        got(old(storage)@, KEY_NAME, r, final(storage)@),
{
    storage.get::<StorableString<22>>(KEY_NAME)
}

/// Stores the device name.
pub fn set_device_name(storage: &mut Storage, name: &StorableString<22>) -> (r: Result<
    (),
    StorageError,
>)
    requires
        old(storage).wf(),
        name.wf(),
    ensures
        final(storage).wf(),
        final(storage).spec_region() == old(storage).spec_region(),
        inserted(old(storage)@, KEY_NAME, *name, r, final(storage)@),
{
    storage.insert(KEY_NAME, name)
}

/// Reads the device serial number.
pub fn get_serial_number(storage: &mut Storage) -> (r: Result<Option<[u8; 5]>, StorageError>)
    requires
        old(storage).wf(),
    ensures
        final(storage).wf(),
        final(storage).spec_region() == old(storage).spec_region(),
        got(old(storage)@, KEY_SNUM, r, final(storage)@),
{
    storage.get::<[u8; 5]>(KEY_SNUM)
}

/// Stores the device serial number.
pub fn set_serial_number(storage: &mut Storage, snum: &[u8; 5]) -> (r: Result<(), StorageError>)
    requires
        old(storage).wf(),
    ensures
        final(storage).wf(),
        final(storage).spec_region() == old(storage).spec_region(),
        inserted(old(storage)@, KEY_SNUM, *snum, r, final(storage)@),
{
    storage.insert(KEY_SNUM, snum)
}

/// Reads the serial line's baud rate.
pub fn get_baud_rate(storage: &mut Storage) -> (r: Result<Option<u32>, StorageError>)
    requires
        old(storage).wf(),
    ensures
        final(storage).wf(),
        final(storage).spec_region() == old(storage).spec_region(),
        got(old(storage)@, KEY_BAUD, r, final(storage)@),
{
    storage.get::<u32>(KEY_BAUD)
}

/// Stores the serial line's baud rate.
pub fn set_baud_rate(storage: &mut Storage, baud: u32) -> (r: Result<(), StorageError>)
    requires
        old(storage).wf(),
    ensures
        final(storage).wf(),
        final(storage).spec_region() == old(storage).spec_region(),
        inserted(old(storage)@, KEY_BAUD, baud, r, final(storage)@),
{
    storage.insert(KEY_BAUD, &baud)
}

/// Reads the periodic message settings.
pub fn get_amsg(storage: &mut Storage) -> (r: Result<Option<Amsg>, StorageError>)
    requires
        old(storage).wf(),
    ensures
        final(storage).wf(),
        final(storage).spec_region() == old(storage).spec_region(),
        got(old(storage)@, KEY_AMSG, r, final(storage)@),
{
    storage.get::<Amsg>(KEY_AMSG)
}

/// Stores the periodic message settings.
pub fn set_amsg(storage: &mut Storage, amsg: &Amsg) -> (r: Result<(), StorageError>)
    requires
        old(storage).wf(),
    ensures
        final(storage).wf(),
        final(storage).spec_region() == old(storage).spec_region(),
        inserted(old(storage)@, KEY_AMSG, *amsg, r, final(storage)@),
{
    storage.insert(KEY_AMSG, amsg)
}

/// Reads the sensor polling interval.
pub fn get_sensors_interval(storage: &mut Storage) -> (r: Result<Option<u8>, StorageError>)
    requires
        old(storage).wf(),
    ensures
        final(storage).wf(),
        final(storage).spec_region() == old(storage).spec_region(),
        got(old(storage)@, KEY_SENS_INTERVAL, r, final(storage)@),
{
    storage.get::<u8>(KEY_SENS_INTERVAL)
}

/// Stores the sensor polling interval.
pub fn set_sensors_interval(storage: &mut Storage, interval: u8) -> (r: Result<(), StorageError>)
    requires
        old(storage).wf(),
    ensures
        final(storage).wf(),
        final(storage).spec_region() == old(storage).spec_region(),
        inserted(old(storage)@, KEY_SENS_INTERVAL, interval, r, final(storage)@),
{
    storage.insert(KEY_SENS_INTERVAL, &interval)
}

/// Reads the heater settings.
pub fn get_heater_config(storage: &mut Storage) -> (r: Result<Option<HeaterNvdata>, StorageError>)
    requires
        old(storage).wf(),
    ensures
        final(storage).wf(),
        final(storage).spec_region() == old(storage).spec_region(),
        got(old(storage)@, KEY_HEAT, r, final(storage)@),
{
    storage.get::<HeaterNvdata>(KEY_HEAT)
}

/// Stores the heater settings.
pub fn set_heater_config(storage: &mut Storage, heat_cfg: &HeaterNvdata) -> (r: Result<
    (),
    StorageError,
>)
    requires
        old(storage).wf(),
    ensures
        final(storage).wf(),
        final(storage).spec_region() == old(storage).spec_region(),
        inserted(old(storage)@, KEY_HEAT, *heat_cfg, r, final(storage)@),
{
    storage.insert(KEY_HEAT, heat_cfg)
}

} // verus!
