use vstd::prelude::*;

use super::shared::{flag, flags_line, format_flags_line, make_flag, strings_view};

verus! {

/// One entry of a mask table: the condition `name` holds when any bit of
/// `mask` is set in the register.
pub struct MaskFieldDescriptor {
    pub mask: u8,
    pub name: &'static str,
}

/// Whether any bit of `mask` is set in `value`.
pub open spec fn mask_hit(value: u8, mask: u8) -> bool {
    value & mask > 0
}

/// `+name` for each entry of `t` whose mask hits `value`, in table order.
pub open spec fn mask_set_flags(t: Seq<MaskFieldDescriptor>, value: u8) -> Seq<Seq<char>>
    decreases t.len(),
{
    if t.len() == 0 {
        Seq::empty()
    } else {
        let prev = mask_set_flags(t.drop_last(), value);
        if mask_hit(value, t.last().mask) {
            prev.push(flag('+', t.last().name@))
        } else {
            prev
        }
    }
}

/// `-name` for each entry of `t` whose mask misses `value`, in table order.
pub open spec fn mask_cleared_flags(t: Seq<MaskFieldDescriptor>, value: u8) -> Seq<Seq<char>>
    decreases t.len(),
{
    if t.len() == 0 {
        Seq::empty()
    } else {
        let prev = mask_cleared_flags(t.drop_last(), value);
        if !mask_hit(value, t.last().mask) {
            prev.push(flag('-', t.last().name@))
        } else {
            prev
        }
    }
}

/// Conditions of the header type register. The multi-function entry tests
/// the whole byte.
pub open spec fn header_type_table() -> Seq<MaskFieldDescriptor> {
    seq![
        MaskFieldDescriptor { mask: 0x01, name: "PCItoPCIBridge" },
        MaskFieldDescriptor { mask: 0x02, name: "PCItoCardBusBridge" },
        MaskFieldDescriptor { mask: 0xff, name: "MultiFunction" },
    ]
}

/// The display line of a header type register value.
pub open spec fn header_type_text(value: u8) -> Seq<char> {
    flags_line(
        mask_set_flags(header_type_table(), value),
        mask_cleared_flags(header_type_table(), value),
    )
}

fn header_type_fields() -> (r: [MaskFieldDescriptor; 3])
    ensures
        r@ == header_type_table(),
{
    let r = [
        MaskFieldDescriptor { mask: 0x01, name: "PCItoPCIBridge" },
        MaskFieldDescriptor { mask: 0x02, name: "PCItoCardBusBridge" },
        MaskFieldDescriptor { mask: 0xff, name: "MultiFunction" },
    ];
    assert(r@ =~= header_type_table());
    r
}

/// Tests each entry of `fields` against `value` on its own: the first vector
/// holds the `+name` tokens of the entries whose mask hits, the second the
/// `-name` tokens of the others, both in table order.
pub fn decode_mask_flags(fields: &[MaskFieldDescriptor], value: u8) -> (r: (Vec<String>, Vec<String>))
    ensures
        strings_view(r.0@) == mask_set_flags(fields@, value),
        strings_view(r.1@) == mask_cleared_flags(fields@, value),
{
    let mut set: Vec<String> = Vec::new();
    let mut cleared: Vec<String> = Vec::new();
    let mut i: usize = 0;
    while i < fields.len()
        invariant
            i <= fields@.len(),
            strings_view(set@) == mask_set_flags(fields@.subrange(0, i as int), value),
            strings_view(cleared@) == mask_cleared_flags(fields@.subrange(0, i as int), value),
        decreases fields@.len() - i,
    {
        let ghost next = fields@.subrange(0, i + 1);
        proof {
            assert(next.drop_last() =~= fields@.subrange(0, i as int));
        }
        let desc = &fields[i];
        let hit = value & desc.mask > 0;
        let token = make_flag(hit, desc.name);
        if hit {
            set.push(token);
        } else {
            cleared.push(token);
        }
        proof {
            assert(strings_view(set@) =~= mask_set_flags(next, value));
            assert(strings_view(cleared@) =~= mask_cleared_flags(next, value));
        }
        i += 1;
    }
    proof {
        assert(fields@.subrange(0, fields@.len() as int) =~= fields@);
    }
    (set, cleared)
}

/// The 8-bit header type register value.
pub struct HeaderTypeRegister {
    pub vector: u8,
}

impl From<u8> for HeaderTypeRegister {
    fn from(value: u8) -> (r: Self)
        ensures
            r.vector == value,
    {
        Self { vector: value }
    }
}

impl vstd::std_specs::convert::FromSpecImpl<u8> for HeaderTypeRegister {
    open spec fn obeys_from_spec() -> bool {
        true
    }

    open spec fn from_spec(value: u8) -> Self {
        HeaderTypeRegister { vector: value }
    }
}

/// Renders a header type register as its flag line.
pub struct HeaderTypePrettyPrinter {}

impl HeaderTypePrettyPrinter {
    pub fn new() -> Self {
        Self {}
    }

    /// The flag line of `reg`: set flags, then cleared ones (see `header_type_text`).
    pub fn print(&self, reg: &HeaderTypeRegister) -> (r: String)
        ensures
            r@ == header_type_text(reg.vector),
    {
        let fields = header_type_fields();
        let (set, cleared) = decode_mask_flags(fields.as_slice(), reg.vector);
        format_flags_line(set, cleared)
    }
}

} // verus!
