use vstd::prelude::*;
use vstd::string::*;

verus! {

/// One entry of a bit-vector register table: `len` bits named `name`.
/// Reserved entries occupy bits but are never reported.
pub struct BitVecFieldDescriptor {
    pub len: usize,
    pub name: &'static str,
    pub is_reserved: bool,
}

/// The characters of each string of `v`.
pub open spec fn strings_view(v: Seq<String>) -> Seq<Seq<char>> {
    v.map_values(|s: String| s@)
}

/// The items of `items` joined with single spaces.
pub open spec fn joined(items: Seq<Seq<char>>) -> Seq<char>
    decreases items.len(),
{
    if items.len() == 0 {
        Seq::empty()
    } else if items.len() == 1 {
        items[0]
    } else {
        joined(items.drop_last()) + seq![' '] + items.last()
    }
}

/// The display line for a register: the set flags, then the cleared ones.
///
/// A side with two or more items and nothing on the other side is printed
/// alone; in every other case both joined sides are printed with one space
/// between them, even when a side is empty.
pub open spec fn flags_line(set: Seq<Seq<char>>, cleared: Seq<Seq<char>>) -> Seq<char> {
    if set.len() > 1 && cleared.len() == 0 {
        joined(set)
    } else if set.len() == 0 && cleared.len() > 1 {
        joined(cleared)
    } else {
        joined(set) + seq![' '] + joined(cleared)
    }
}

/// Number of bits covered by the table `t`.
pub open spec fn bits_total(t: Seq<BitVecFieldDescriptor>) -> nat
    decreases t.len(),
{
    if t.len() == 0 {
        0
    } else {
        bits_total(t.drop_last()) + t.last().len as nat
    }
}

/// Whether bit `offset` of `value` is one (bits past the 16th read as zero).
pub open spec fn bit_at(value: u16, offset: nat) -> bool {
    offset < 16 && (value >> (offset as u16)) & 1u16 == 1u16
}

/// A flag token: the sign character followed by the name.
pub open spec fn flag(sign: char, name: Seq<char>) -> Seq<char> {
    seq![sign] + name
}

/// `+name` for each non-reserved entry of `t` whose bit is one in `value`,
/// in table order; entry `i` starts at the sum of the lengths before it.
pub open spec fn set_flags(t: Seq<BitVecFieldDescriptor>, value: u16) -> Seq<Seq<char>>
    decreases t.len(),
{
    if t.len() == 0 {
        Seq::empty()
    } else {
        let prev = set_flags(t.drop_last(), value);
        let d = t.last();
        if !d.is_reserved && bit_at(value, bits_total(t.drop_last())) {
            prev.push(flag('+', d.name@))
        } else {
            prev
        }
    }
}

/// `-name` for each non-reserved entry of `t` whose bit is zero in `value`,
/// in table order.
pub open spec fn cleared_flags(t: Seq<BitVecFieldDescriptor>, value: u16) -> Seq<Seq<char>>
    decreases t.len(),
{
    if t.len() == 0 {
        Seq::empty()
    } else {
        let prev = cleared_flags(t.drop_last(), value);
        let d = t.last();
        if !d.is_reserved && !bit_at(value, bits_total(t.drop_last())) {
            prev.push(flag('-', d.name@))
        } else {
            prev
        }
    }
}

/// The token `sign` followed by `name`, as a string.
pub(crate) fn make_flag(set: bool, name: &str) -> (r: String)
    ensures
        r@ == flag(if set { '+' } else { '-' }, name@),
{
    let mut out = if set {
        String::from_str("+")
    } else {
        String::from_str("-")
    };
    out.append(name);
    proof {
        reveal_strlit("+");
        reveal_strlit("-");
        assert(out@ =~= flag(if set { '+' } else { '-' }, name@));
    }
    out
}

/// Classifies each non-reserved bit of `value` described by `fields`,
/// walking the table with a running bit offset: the first vector holds the
/// `+name` tokens of the set bits, the second the `-name` tokens of the
/// cleared ones, both in table order.
pub fn decode_bit_flags(fields: &[BitVecFieldDescriptor], value: u16) -> (r: (Vec<String>, Vec<String>))
    requires
        bits_total(fields@) <= 16,
    ensures
        strings_view(r.0@) == set_flags(fields@, value),
        strings_view(r.1@) == cleared_flags(fields@, value),
{
    let mut set: Vec<String> = Vec::new();
    let mut cleared: Vec<String> = Vec::new();
    let mut offset: usize = 0;
    let mut i: usize = 0;
    while i < fields.len()
        invariant
            i <= fields@.len(),
            bits_total(fields@) <= 16,
            offset == bits_total(fields@.subrange(0, i as int)),
            strings_view(set@) == set_flags(fields@.subrange(0, i as int), value),
            strings_view(cleared@) == cleared_flags(fields@.subrange(0, i as int), value),
        decreases fields@.len() - i,
    {
        let ghost prefix = fields@.subrange(0, i as int);
        let ghost next = fields@.subrange(0, i + 1);
        proof {
            assert(next.drop_last() =~= prefix);
            lemma_bits_total_prefix(fields@, i + 1);
        }
        let desc = &fields[i];
        if !desc.is_reserved {
            let is_set = offset < 16 && (value >> (offset as u16)) & 1u16 == 1u16;
            let token = make_flag(is_set, desc.name);
            if is_set {
                set.push(token);
            } else {
                cleared.push(token);
            }
            proof {
                assert(strings_view(set@) =~= set_flags(next, value));
                assert(strings_view(cleared@) =~= cleared_flags(next, value));
            }
        }
        offset = offset + desc.len;
        i += 1;
    }
    proof {
        assert(fields@.subrange(0, fields@.len() as int) =~= fields@);
    }
    (set, cleared)
}

/// The bits covered by a prefix of `t` are at most those covered by `t`.
proof fn lemma_bits_total_prefix(t: Seq<BitVecFieldDescriptor>, n: int)
    requires
        0 <= n <= t.len(),
    ensures
        bits_total(t.subrange(0, n)) <= bits_total(t),
    decreases t.len() - n,
{
    if n < t.len() {
        lemma_bits_total_prefix(t, n + 1);
        assert(t.subrange(0, n + 1).drop_last() =~= t.subrange(0, n));
    } else {
        assert(t.subrange(0, n) =~= t);
    }
}

fn join_with_spaces(items: &Vec<String>) -> (r: String)
    ensures
        r@ == joined(strings_view(items@)),
{
    let mut out = String::new();
    let mut i: usize = 0;
    while i < items.len()
        invariant
            i <= items.len(),
            out@ == joined(strings_view(items@.subrange(0, i as int))),
        decreases items.len() - i,
    {
        let ghost prev = strings_view(items@.subrange(0, i as int));
        if i > 0 {
            out.append(" ");
        }
        out.append(items[i].as_str());
        proof {
            reveal_strlit(" ");
            let next = strings_view(items@.subrange(0, i + 1));
            assert(next.drop_last() =~= prev);
            assert(next.last() == items@[i as int]@);
        }
        i += 1;
    }
    assert(items@.subrange(0, items@.len() as int) =~= items@);
    out
}

/// Renders the set and cleared flag lists as one line (see `flags_line`).
pub fn format_flags_line(set: Vec<String>, cleared: Vec<String>) -> (r: String)
    ensures
        r@ == flags_line(strings_view(set@), strings_view(cleared@)),
{
    if set.len() > 1 && cleared.len() == 0 {
        join_with_spaces(&set)
    } else if set.len() == 0 && cleared.len() > 1 {
        join_with_spaces(&cleared)
    } else {
        let mut line = join_with_spaces(&set);
        line.append(" ");
        let cleared_joined = join_with_spaces(&cleared);
        line.append(cleared_joined.as_str());
        proof {
            reveal_strlit(" ");
        }
        line
    }
}

} // verus!
