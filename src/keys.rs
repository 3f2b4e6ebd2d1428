use vstd::prelude::*;
use vstd::string::StringSliceAdditionalSpecFns;

verus! {

/// Width in bytes of a normalized key.
pub const KEY_WIDTH: usize = 64;

/// The fixed-width form of a textual key: its bytes followed by zero bytes.
pub open spec fn padded(bytes: Seq<u8>) -> Seq<u8> {
    bytes + Seq::new((KEY_WIDTH - bytes.len()) as nat, |i: int| 0u8)
}

/// Maps a textual key to its fixed-width byte form, or `None` when the key
/// is longer than the fixed width.
pub fn pad_key(key: &str) -> (r: Option<[u8; 64]>)
    ensures
        key.spec_bytes().len() > KEY_WIDTH <==> r is None,
        r matches Some(k) ==> k@ == padded(key.spec_bytes()),
{
    let bytes = key.as_bytes();
    if bytes.len() > KEY_WIDTH {
        return None;
    }
    let mut out = [0u8; 64];
    let mut i: usize = 0;
    while i < bytes.len()
        invariant
            bytes@ == key.spec_bytes(),
            bytes@.len() <= KEY_WIDTH,
            i <= bytes@.len(),
            out@.len() == KEY_WIDTH,
            forall|j: int| 0 <= j < i ==> out@[j] == bytes@[j],
            forall|j: int| i <= j < KEY_WIDTH ==> out@[j] == 0u8,
        decreases bytes@.len() - i,
    {
        out[i] = bytes[i];
        i = i + 1;
    }
    assert(out@ =~= padded(key.spec_bytes()));
    Some(out)
}

} // verus!
