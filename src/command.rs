use vstd::prelude::*;
use vstd::string::StringSliceAdditionalSpecFns;

verus! {

/// Commands of the command line.
#[derive(Debug, Clone, Copy, PartialEq, Eq, Structural)]
pub enum Command {
    /// Report the counter and the mode.
    Get,
    /// Persist a new counter.
    SetCounter { counter: u32 },
    /// Persist a new mode.
    SetMode { mode: u8 },
    /// Show the list of commands.
    Help,
    /// Anything else, including a command whose number does not parse.
    Unknown,
}

/// ASCII whitespace: space, and tab through carriage return.
pub open spec fn is_ws(c: u8) -> bool {
    c == 32 || (9 <= c && c <= 13)
}

/// The length of the UTF-8 encoding of a whitespace character (Unicode's
/// White_Space property, as `char::is_whitespace` has it) that starts at
/// position `i`, or 0 when none does.
pub open spec fn ws_len(b: Seq<u8>, i: int) -> nat {
    if i < 0 || i >= b.len() {
        0
    } else if is_ws(b[i]) {
        1
    } else if i + 1 < b.len() && b[i] == 0xC2 && (b[i + 1] == 0x85 || b[i + 1] == 0xA0) {
        2
    } else if i + 2 >= b.len() {
        0
    } else if b[i] == 0xE1 && b[i + 1] == 0x9A && b[i + 2] == 0x80 {
        3
    } else if b[i] == 0xE2 && b[i + 1] == 0x80 && ((0x80 <= b[i + 2] && b[i + 2] <= 0x8A) || b[i
        + 2] == 0xA8 || b[i + 2] == 0xA9 || b[i + 2] == 0xAF) {
        3
    } else if b[i] == 0xE2 && b[i + 1] == 0x81 && b[i + 2] == 0x9F {
        3
    } else if b[i] == 0xE3 && b[i + 1] == 0x80 && b[i + 2] == 0x80 {
        3
    } else {
        0
    }
}

/// First position at or after `i` where no whitespace character starts.
pub open spec fn skip_ws(b: Seq<u8>, i: int) -> int
    decreases b.len() - i,
{
    if i < 0 || i >= b.len() || ws_len(b, i) == 0 {
        i
    } else {
        skip_ws(b, i + ws_len(b, i))
    }
}

/// First position at or after `i` where a whitespace character starts, or
/// the end.
pub open spec fn word_end(b: Seq<u8>, i: int) -> int
    decreases b.len() - i,
{
    if i < 0 || i >= b.len() || ws_len(b, i) > 0 {
        i
    } else {
        word_end(b, i + 1)
    }
}

/// The second whitespace-separated word of `b`, if it has one.
pub open spec fn second_word(b: Seq<u8>) -> Option<Seq<u8>> {
    let s0 = skip_ws(b, 0);
    let s1 = skip_ws(b, word_end(b, s0));
    if s1 < b.len() {
        Some(b.subrange(s1, word_end(b, s1)))
    } else {
        None
    }
}

pub open spec fn is_digit(c: u8) -> bool {
    48 <= c && c <= 57
}

/// The number that a string of decimal digits denotes.
pub open spec fn digits_value(d: Seq<u8>) -> nat
    decreases d.len(),
{
    if d.len() == 0 {
        0
    } else {
        digits_value(d.drop_last()) * 10 + (d.last() - 48) as nat
    }
}

/// The part of `t` after an optional leading `+`.
pub open spec fn unsigned_digits(t: Seq<u8>) -> Seq<u8> {
    if t.len() > 0 && t[0] == 43u8 {
        t.drop_first()
    } else {
        t
    }
}

pub open spec fn all_digits(d: Seq<u8>) -> bool {
    forall|i: int| 0 <= i < d.len() ==> is_digit(#[trigger] d[i])
}

/// An unsigned integer in decimal, as Rust's `str::parse` reads it: an
/// optional `+`, then one or more digits, denoting at most `max`.
pub open spec fn parse_unsigned(t: Seq<u8>, max: nat) -> Option<nat> {
    let d = unsigned_digits(t);
    if d.len() == 0 || !all_digits(d) {
        None
    } else if digits_value(d) > max {
        None
    } else {
        Some(digits_value(d))
    }
}

pub open spec fn has_prefix(b: Seq<u8>, p: Seq<u8>) -> bool {
    b.len() >= p.len() && b.subrange(0, p.len() as int) == p
}

pub open spec fn word_get() -> Seq<u8> {
    seq![103u8, 101u8, 116u8]
}

pub open spec fn word_set() -> Seq<u8> {
    seq![115u8, 101u8, 116u8, 32u8]
}

pub open spec fn word_mode() -> Seq<u8> {
    seq![109u8, 111u8, 100u8, 101u8, 32u8]
}

pub open spec fn word_help() -> Seq<u8> {
    seq![104u8, 101u8, 108u8, 112u8]
}

/// The line's first word is `get`: the line is `get`, or `get` followed by
/// whitespace.
pub open spec fn is_get(b: Seq<u8>) -> bool {
    has_prefix(b, word_get()) && (b.len() == 3 || ws_len(b, 3) > 0)
}

/// The command that a line denotes: `get` as its first word, `set ` or
/// `mode ` as a prefix with a number as second word, or exactly `help`.
pub open spec fn command_of(b: Seq<u8>) -> Command {
    if is_get(b) {
        Command::Get
    } else if has_prefix(b, word_set()) {
        match second_word(b) {
            Some(w) => match parse_unsigned(w, 0xffff_ffff) {
                Some(n) => Command::SetCounter { counter: n as u32 },
                None => Command::Unknown,
            },
            None => Command::Unknown,
        }
    } else if has_prefix(b, word_mode()) {
        match second_word(b) {
            Some(w) => match parse_unsigned(w, 0xff) {
                Some(n) => Command::SetMode { mode: n as u8 },
                None => Command::Unknown,
            },
            None => Command::Unknown,
        }
    } else if b == word_help() {
        Command::Help
    } else {
        Command::Unknown
    }
}

fn starts_with(b: &[u8], p: &[u8]) -> (r: bool)
    ensures
        r == has_prefix(b@, p@),
{
    if b.len() < p.len() {
        return false;
    }
    let mut i: usize = 0;
    while i < p.len()
        invariant
            b@.len() >= p@.len(),
            i <= p@.len(),
            forall|j: int| 0 <= j < i ==> b@[j] == p@[j],
        decreases p@.len() - i,
    {
        if b[i] != p[i] {
            assert(b@.subrange(0, p@.len() as int)[i as int] != p@[i as int]);
            return false;
        }
        i = i + 1;
    }
    assert(b@.subrange(0, p@.len() as int) =~= p@);
    true
}

fn ws_len_at(b: &[u8], i: usize) -> (r: usize)
    ensures
        r == ws_len(b@, i as int),
        r > 0 ==> i + r <= b@.len(),
{
    let n = b.len();
    if i >= n {
        return 0;
    }
    let c = b[i];
    if c == 32 || (9 <= c && c <= 13) {
        return 1;
    }
    if i + 1 < n && c == 0xC2 && (b[i + 1] == 0x85 || b[i + 1] == 0xA0) {
        return 2;
    }
    if n - i <= 2 {
        return 0;
    }
    let c1 = b[i + 1];
    let c2 = b[i + 2];
    if c == 0xE1 && c1 == 0x9A && c2 == 0x80 {
        3
    } else if c == 0xE2 && c1 == 0x80 && ((0x80 <= c2 && c2 <= 0x8A) || c2 == 0xA8 || c2 == 0xA9
        || c2 == 0xAF) {
        3
    } else if c == 0xE2 && c1 == 0x81 && c2 == 0x9F {
        3
    } else if c == 0xE3 && c1 == 0x80 && c2 == 0x80 {
        3
    } else {
        0
    }
}

fn find_non_ws(b: &[u8], i: usize) -> (r: usize)
    requires
        i <= b@.len(),
    ensures
        r == skip_ws(b@, i as int),
        i <= r <= b@.len(),
{
    let mut k = i;
    let n = b.len();
    loop
        invariant
            n == b@.len(),
            i <= k <= b@.len(),
            skip_ws(b@, k as int) == skip_ws(b@, i as int),
        decreases b@.len() - k,
    {
        let w = ws_len_at(b, k);
        if w == 0 {
            return k;
        }
        k = k + w;
    }
}

fn find_ws(b: &[u8], i: usize) -> (r: usize)
    requires
        i <= b@.len(),
    ensures
        r == word_end(b@, i as int),
        i <= r <= b@.len(),
{
    let mut k = i;
    while k < b.len() && ws_len_at(b, k) == 0
        invariant
            i <= k <= b@.len(),
            word_end(b@, k as int) == word_end(b@, i as int),
        decreases b@.len() - k,
    {
        k = k + 1;
    }
    k
}

/// Each digit string of at least `i` digits denotes at least what its first
/// `i` digits do.
proof fn lemma_digits_prefix(d: Seq<u8>, i: int)
    requires
        0 <= i <= d.len(),
    ensures
        digits_value(d.subrange(0, i)) <= digits_value(d),
    decreases d.len() - i,
{
    if i < d.len() {
        lemma_digits_prefix(d, i + 1);
        let t = d.subrange(0, i + 1);
        assert(t.drop_last() =~= d.subrange(0, i));
    } else {
        assert(d.subrange(0, i) =~= d);
    }
}

/// Reads an unsigned decimal number from `b[start..end]`.
fn parse_number(b: &[u8], start: usize, end: usize, max: u32) -> (r: Option<u32>)
    requires
        start <= end <= b@.len(),
    ensures
        match parse_unsigned(b@.subrange(start as int, end as int), max as nat) {
            Some(n) => r == Some(n as u32),
            None => r is None,
        },
{
    let ghost t = b@.subrange(start as int, end as int);
    let mut s = start;
    if s < end && b[s] == 43 {
        s = s + 1;
    }
    let ghost d = b@.subrange(s as int, end as int);
    assert(d =~= unsigned_digits(t));
    if s == end {
        return None;
    }
    let mut k = s;
    while k < end
        invariant
            s <= k <= end <= b@.len(),
            d == b@.subrange(s as int, end as int),
            d == unsigned_digits(b@.subrange(start as int, end as int)),
            d.len() > 0,
            forall|j: int| 0 <= j < k - s ==> is_digit(d[j]),
        decreases end - k,
    {
        if !(48 <= b[k] && b[k] <= 57) {
            assert(d[k - s] == b@[k as int]);
            assert(!all_digits(d));
            return None;
        }
        k = k + 1;
    }
    let mut acc: u64 = 0;
    let mut k = s;
    while k < end
        invariant
            s <= k <= end <= b@.len(),
            d == b@.subrange(s as int, end as int),
            d == unsigned_digits(b@.subrange(start as int, end as int)),
            d.len() > 0,
            all_digits(d),
            acc == digits_value(d.subrange(0, k - s)),
            acc <= max,
        decreases end - k,
    {
        assert(d[k - s] == b@[k as int]);
        let digit = (b[k] - 48) as u64;
        proof {
            let p = d.subrange(0, k - s + 1);
            assert(p.drop_last() =~= d.subrange(0, k - s));
            assert(p.last() == b@[k as int]);
        }
        acc = acc * 10 + digit;
        if acc > max as u64 {
            proof {
                lemma_digits_prefix(d, k - s + 1);
            }
            return None;
        }
        k = k + 1;
    }
    assert(d.subrange(0, d.len() as int) =~= d);
    Some(acc as u32)
}

/// Reads a command from a line of bytes.
pub fn parse_command_bytes(b: &[u8]) -> (r: Command)
    ensures
        r == command_of(b@),
{
    if starts_with(b, &[103u8, 101u8, 116u8]) && (b.len() == 3 || ws_len_at(b, 3) > 0) {
        return Command::Get;
    }
    if starts_with(b, &[115u8, 101u8, 116u8, 32u8]) {
        let s0 = find_non_ws(b, 0);
        let e0 = find_ws(b, s0);
        let s1 = find_non_ws(b, e0);
        if s1 >= b.len() {
            return Command::Unknown;
        }
        let e1 = find_ws(b, s1);
        return match parse_number(b, s1, e1, 0xffff_ffff) {
            Some(n) => Command::SetCounter { counter: n },
            None => Command::Unknown,
        };
    }
    if starts_with(b, &[109u8, 111u8, 100u8, 101u8, 32u8]) {
        let s0 = find_non_ws(b, 0);
        let e0 = find_ws(b, s0);
        let s1 = find_non_ws(b, e0);
        if s1 >= b.len() {
            return Command::Unknown;
        }
        let e1 = find_ws(b, s1);
        return match parse_number(b, s1, e1, 0xff) {
            Some(n) => Command::SetMode { mode: n as u8 },
            None => Command::Unknown,
        };
    }
    if b.len() == 4 && starts_with(b, &[104u8, 101u8, 108u8, 112u8]) {
        assert(b@ =~= word_help());
        return Command::Help;
    }
    assert(b@.len() == 4 && b@ == word_help() ==> b@.subrange(0, 4) =~= b@);
    Command::Unknown
}

/// Reads a command from a line of text.
pub fn parse_command(input: &str) -> (r: Command)
    ensures
        r == command_of(input.spec_bytes()),
{
    parse_command_bytes(input.as_bytes())
}

} // verus!
