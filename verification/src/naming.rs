//! Naming of the kernel objects a channel uses: one shared section and five
//! events per endpoint pair, all derived from the channel's base name.

use vstd::prelude::*;
use vstd::string::StringExecFns;

verus! {

/// Which way an event points across the channel.
#[derive(Clone, Copy)]
pub enum Direction {
    ServerToClient,
    ClientToServer,
}

impl Direction {
    /// The short tag that names objects of this direction.
    pub fn as_str(&self) -> (r: &'static str)
        ensures
            self is ServerToClient ==> r@ == "S2C"@,
            self is ClientToServer ==> r@ == "C2S"@,
    {
        match self {
            Direction::ServerToClient => "S2C",
            Direction::ClientToServer => "C2S",
        }
    }
}

/// The common prefix of every event name of a channel.
pub open spec fn spec_event_prefix(base: Seq<char>) -> Seq<char> {
    "Local\\XSHM_"@ + base + "_"@
}

/// Name of the shared section backing the channel `base`.
pub open spec fn spec_mapping_name(base: Seq<char>) -> Seq<char> {
    "Local\\XSHM_SEG_"@ + base
}

/// The direction tag as characters.
pub open spec fn spec_direction_tag(direction: Direction) -> Seq<char> {
    match direction {
        Direction::ServerToClient => "S2C"@,
        Direction::ClientToServer => "C2S"@,
    }
}

/// Name of one event of a channel: prefix, direction tag and suffix.
pub open spec fn spec_event_name(base: Seq<char>, direction: Direction, suffix: Seq<char>)
    -> Seq<char> {
    spec_event_prefix(base) + spec_direction_tag(direction) + "_"@ + suffix
}

/// The common prefix of every event name of channel `base`.
pub fn event_prefix(base: &str) -> (r: String)
    ensures
        r@ == spec_event_prefix(base@),
{
    let mut s = String::from_str("Local\\XSHM_");
    s.append(base);
    s.append("_");
    s
}

/// Name of the shared section backing channel `base`.
pub fn mapping_name(base: &str) -> (r: String)
    ensures
        r@ == spec_mapping_name(base@),
{
    let mut s = String::from_str("Local\\XSHM_SEG_");
    s.append(base);
    s
}

/// Name of one event of channel `base`, for the given direction and suffix.
pub fn event_name(base: &str, direction: Direction, suffix: &str) -> (r: String)
    ensures
        r@ == spec_event_name(base@, direction, suffix@),
{
    let mut s = event_prefix(base);
    s.append(direction.as_str());
    s.append("_");
    s.append(suffix);
    s
}

/// The character of one decimal digit.
pub open spec fn decimal_digit(d: int) -> char {
    if d == 0 {
        '0'
    } else if d == 1 {
        '1'
    } else if d == 2 {
        '2'
    } else if d == 3 {
        '3'
    } else if d == 4 {
        '4'
    } else if d == 5 {
        '5'
    } else if d == 6 {
        '6'
    } else if d == 7 {
        '7'
    } else if d == 8 {
        '8'
    } else {
        '9'
    }
}

/// The decimal digits of a non-negative number, most significant first.
pub open spec fn spec_decimal(n: int) -> Seq<char>
    decreases n,
{
    if n < 10 {
        seq![decimal_digit(n)]
    } else {
        spec_decimal(n / 10).push(decimal_digit(n % 10))
    }
}

/// The character of one hexadecimal digit.
pub open spec fn hex_digit(d: int) -> char {
    if d < 10 {
        decimal_digit(d)
    } else if d == 10 {
        'a'
    } else if d == 11 {
        'b'
    } else if d == 12 {
        'c'
    } else if d == 13 {
        'd'
    } else if d == 14 {
        'e'
    } else {
        'f'
    }
}

/// The lowest `width` hexadecimal digits of a non-negative number, most
/// significant first, zero-padded.
pub open spec fn spec_hex(x: int, width: nat) -> Seq<char>
    decreases width,
{
    if width == 0 {
        Seq::empty()
    } else {
        spec_hex(x / 16, (width - 1) as nat).push(hex_digit(x % 16))
    }
}

/// One decimal digit as a string.
fn digit_str(d: u32) -> (r: &'static str)
    requires
        d < 10,
    ensures
        r@ == seq![decimal_digit(d as int)],
{
    proof {
        reveal_strlit("0");
        reveal_strlit("1");
        reveal_strlit("2");
        reveal_strlit("3");
        reveal_strlit("4");
        reveal_strlit("5");
        reveal_strlit("6");
        reveal_strlit("7");
        reveal_strlit("8");
        reveal_strlit("9");
    }
    let r = match d {
        0 => "0",
        1 => "1",
        2 => "2",
        3 => "3",
        4 => "4",
        5 => "5",
        6 => "6",
        7 => "7",
        8 => "8",
        _ => "9",
    };
    proof {
        assert(r@ =~= seq![decimal_digit(d as int)]);
    }
    r
}

/// One hexadecimal digit as a string.
fn hex_digit_str(d: u64) -> (r: &'static str)
    requires
        d < 16,
    ensures
        r@ == seq![hex_digit(d as int)],
{
    if d < 10 {
        digit_str(d as u32)
    } else {
        proof {
            reveal_strlit("a");
            reveal_strlit("b");
            reveal_strlit("c");
            reveal_strlit("d");
            reveal_strlit("e");
            reveal_strlit("f");
        }
        let r = match d {
            10 => "a",
            11 => "b",
            12 => "c",
            13 => "d",
            14 => "e",
            _ => "f",
        };
        proof {
            assert(r@ =~= seq![hex_digit(d as int)]);
        }
        r
    }
}

/// A number in decimal, as the slot names need it.
pub fn u32_to_decimal(n: u32) -> (r: String)
    ensures
        r@ == spec_decimal(n as int),
    decreases n,
{
    let digit = digit_str(n % 10);
    if n < 10 {
        String::from_str(digit)
    } else {
        let mut s = u32_to_decimal(n / 10);
        s.append(digit);
        s
    }
}

/// The lowest `width` hexadecimal digits of a number, zero-padded.
pub fn u64_to_hex(x: u64, width: usize) -> (r: String)
    ensures
        r@ == spec_hex(x as int, width as nat),
    decreases width,
{
    if width == 0 {
        String::new()
    } else {
        let mut s = u64_to_hex(x / 16, width - 1);
        s.append(hex_digit_str(x % 16));
        s
    }
}

/// The name of a slot's channel: the base name, an underscore and the slot
/// number in decimal.
pub open spec fn spec_slot_channel_name(base: Seq<char>, slot: u32) -> Seq<char> {
    base + "_"@ + spec_decimal(slot as int)
}

/// Name of the channel belonging to slot `slot` of base name `base`.
pub fn slot_channel_name(base: &str, slot: u32) -> (r: String)
    ensures
        r@ == spec_slot_channel_name(base@, slot),
{
    let mut s = String::from_str(base);
    s.append("_");
    s.append(u32_to_decimal(slot).as_str());
    s
}

/// The name of a dispatched client's private channel: the base name, an
/// underscore and sixteen hexadecimal digits.
pub open spec fn spec_dispatch_channel_name(base: Seq<char>, state: u64) -> Seq<char> {
    base + "_"@ + spec_hex(state as int, 16)
}

/// Name of the private channel derived from the mixed state word.
pub fn dispatch_channel_name(base: &str, state: u64) -> (r: String)
    ensures
        r@ == spec_dispatch_channel_name(base@, state),
{
    let mut s = String::from_str(base);
    s.append("_");
    s.append(u64_to_hex(state, 16).as_str());
    s
}

} // verus!
