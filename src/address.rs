use vstd::prelude::*;
use vstd::string::*;

use crate::config_space::{hex_text, push_hex};

verus! {

/// Location of a PCI function: bus, device and function numbers.
///
/// Ordering is lexicographic over (bus, device, function). The device and
/// function numbers nominally fit in 5 and 3 bits; the type does not enforce it.
#[derive(Debug, Clone, Copy, PartialEq, Eq, Structural, PartialOrd, Ord)]
pub struct Address {
    pub bus: u8,
    pub device: u8,
    pub function: u8,
}

/// Whether `c` is a hexadecimal digit, in either case.
pub open spec fn is_hex_char(c: char) -> bool {
    ('0' <= c && c <= '9') || ('a' <= c && c <= 'f') || ('A' <= c && c <= 'F')
}

/// The value of the hexadecimal digit `c` (zero for any other character).
pub open spec fn hex_char_value(c: char) -> nat {
    if '0' <= c && c <= '9' {
        (c as u32 - '0' as u32) as nat
    } else if 'a' <= c && c <= 'f' {
        (c as u32 - 'a' as u32 + 10) as nat
    } else if 'A' <= c && c <= 'F' {
        (c as u32 - 'A' as u32 + 10) as nat
    } else {
        0
    }
}

/// The value of the digits `s`, most significant first.
pub open spec fn hex_number(s: Seq<char>) -> nat
    decreases s.len(),
{
    if s.len() == 0 {
        0
    } else {
        hex_number(s.drop_last()) * 16 + hex_char_value(s.last())
    }
}

/// The byte written by `s`: one or more hexadecimal digits whose value fits
/// in a byte.
pub open spec fn hex_byte(s: Seq<char>) -> Option<u8> {
    if s.len() > 0 && (forall|i: int| 0 <= i < s.len() ==> is_hex_char(#[trigger] s[i]))
        && hex_number(s) < 256 {
        Some(hex_number(s) as u8)
    } else {
        None
    }
}

/// Index of the first `.` in `s`, or its length when there is none.
pub open spec fn first_dot(s: Seq<char>) -> int
    decreases s.len(),
{
    if s.len() == 0 || s[0] == '.' {
        0
    } else {
        1 + first_dot(s.drop_first())
    }
}

/// The address named by a bus directory `bus` (the bus number in hex) and a
/// device entry `entry` (`<device hex>.<function hex>`, where anything from a
/// second `.` on is ignored). `None` when either name does not read so.
pub open spec fn dir_address(bus: Seq<char>, entry: Seq<char>) -> Option<Address> {
    let k = first_dot(entry);
    let rest = entry.subrange(k + 1, entry.len() as int);
    let function = rest.subrange(0, first_dot(rest));
    if k < entry.len() && hex_byte(bus) is Some && hex_byte(entry.subrange(0, k)) is Some
        && hex_byte(function) is Some {
        Some(
            Address {
                bus: hex_byte(bus)->0,
                device: hex_byte(entry.subrange(0, k))->0,
                function: hex_byte(function)->0,
            },
        )
    } else {
        None
    }
}

/// `v` in lowercase hex without leading zeros.
pub open spec fn short_hex(v: u8) -> Seq<char> {
    if v < 16 {
        hex_text(v as nat, 1)
    } else {
        hex_text(v as nat, 2)
    }
}

proof fn lemma_hex_number_prefix(s: Seq<char>, n: int)
    requires
        0 <= n <= s.len(),
    ensures
        hex_number(s.subrange(0, n)) <= hex_number(s),
    decreases s.len() - n,
{
    if n < s.len() {
        lemma_hex_number_prefix(s, n + 1);
        assert(s.subrange(0, n + 1).drop_last() =~= s.subrange(0, n));
    } else {
        assert(s.subrange(0, n) =~= s);
    }
}

proof fn lemma_first_dot(s: Seq<char>, k: int)
    requires
        0 <= k <= s.len(),
        k == s.len() || s[k] == '.',
        forall|j: int| 0 <= j < k ==> s[j] != '.',
    ensures
        first_dot(s) == k,
    decreases k,
{
    if k > 0 {
        lemma_first_dot(s.drop_first(), k - 1);
    }
}

/// The byte written by the characters `[from, to)` of `s`.
fn parse_hex_u8(s: &str, from: usize, to: usize) -> (r: Option<u8>)
    requires
        from <= to <= s@.len(),
    ensures
        r == hex_byte(s@.subrange(from as int, to as int)),
{
    let ghost t = s@.subrange(from as int, to as int);
    if from == to {
        return None;
    }
    let mut value: u32 = 0;
    let mut i: usize = from;
    while i < to
        invariant
            from <= i <= to <= s@.len(),
            t == s@.subrange(from as int, to as int),
            forall|j: int| 0 <= j < i - from ==> is_hex_char(#[trigger] t[j]),
            value as nat == hex_number(t.subrange(0, i - from)),
            value < 256,
        decreases to - i,
    {
        let c = s.get_char(i);
        let digit: u32 = if '0' <= c && c <= '9' {
            c as u32 - '0' as u32
        } else if 'a' <= c && c <= 'f' {
            c as u32 - 'a' as u32 + 10
        } else if 'A' <= c && c <= 'F' {
            c as u32 - 'A' as u32 + 10
        } else {
            assert(!is_hex_char(t[i - from]));
            return None;
        };
        proof {
            assert(t.subrange(0, i + 1 - from).drop_last() =~= t.subrange(0, i - from));
        }
        value = value * 16 + digit;
        if value >= 256 {
            proof {
                lemma_hex_number_prefix(t, i + 1 - from);
            }
            return None;
        }
        i += 1;
    }
    proof {
        assert(t.subrange(0, to - from) =~= t);
    }
    Some(value as u8)
}

/// Index of the first `.` at or after `from` in `s`, or its length.
fn find_dot(s: &str, from: usize) -> (r: usize)
    requires
        from <= s@.len(),
    ensures
        r == from + first_dot(s@.subrange(from as int, s@.len() as int)),
        from <= r <= s@.len(),
{
    let len = s.unicode_len();
    let mut i = from;
    while i < len && s.get_char(i) != '.'
        invariant
            from <= i <= len == s@.len(),
            forall|j: int| from <= j < i ==> s@[j] != '.',
        decreases len - i,
    {
        i += 1;
    }
    proof {
        lemma_first_dot(s@.subrange(from as int, s@.len() as int), i - from);
    }
    i
}

impl Address {
    pub fn new(bus: u8, device: u8, function: u8) -> (r: Self)
        ensures
            r.bus == bus,
            r.device == device,
            r.function == function,
    {
        Self { bus, device, function }
    }

    /// Reads an address from the name of its bus directory and the name of
    /// its device entry (see `dir_address`).
    pub fn from_dir_names(bus: &str, entry: &str) -> (r: Option<Self>)
        ensures
            r == dir_address(bus@, entry@),
    {
        let ghost e = entry@;
        let entry_len = entry.unicode_len();
        let dot = find_dot(entry, 0);
        proof {
            assert(e.subrange(0, e.len() as int) =~= e);
        }
        if dot == entry_len {
            return None;
        }
        let end = find_dot(entry, dot + 1);
        proof {
            let rest = e.subrange(dot + 1, e.len() as int);
            assert(rest.subrange(0, first_dot(rest)) =~= e.subrange(dot + 1, end as int));
        }
        let bus_no = parse_hex_u8(bus, 0, bus.unicode_len());
        proof {
            assert(bus@.subrange(0, bus@.len() as int) =~= bus@);
        }
        let device_no = parse_hex_u8(entry, 0, dot);
        let function_no = parse_hex_u8(entry, dot + 1, end);
        match (bus_no, device_no, function_no) {
            (Some(b), Some(d), Some(f)) => Some(Address::new(b, d, f)),
            _ => None,
        }
    }

    /// The bus number as two lowercase hex digits: the name of the bus
    /// directory.
    pub fn bus_dir_name(&self) -> (r: String)
        ensures
            r@ == hex_text(self.bus as nat, 2),
    {
        let mut out = String::new();
        push_hex(&mut out, self.bus as u32, 2);
        assert(out@ =~= hex_text(self.bus as nat, 2));
        out
    }

    /// `<device>.<function>`: the device as two lowercase hex digits, the
    /// function in lowercase hex without leading zeros.
    pub fn device_file_name(&self) -> (r: String)
        ensures
            r@ == hex_text(self.device as nat, 2) + seq!['.'] + short_hex(self.function),
    {
        let mut out = String::new();
        push_hex(&mut out, self.device as u32, 2);
        out.append(".");
        if self.function < 16 {
            push_hex(&mut out, self.function as u32, 1);
        } else {
            push_hex(&mut out, self.function as u32, 2);
        }
        proof {
            reveal_strlit(".");
            assert(out@ =~= hex_text(self.device as nat, 2) + seq!['.'] + short_hex(self.function));
        }
        out
    }
}

} // verus!
