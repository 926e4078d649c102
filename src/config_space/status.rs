use vstd::prelude::*;

use super::shared::{
    BitVecFieldDescriptor, bits_total, cleared_flags, decode_bit_flags, flags_line,
    format_flags_line, set_flags,
};

verus! {

/// Bits of the status register, lowest first.
pub open spec fn status_table() -> Seq<BitVecFieldDescriptor> {
    seq![
        BitVecFieldDescriptor { len: 3, name: "Reserved 1", is_reserved: true },
        BitVecFieldDescriptor { len: 1, name: "INTx", is_reserved: false },
        BitVecFieldDescriptor { len: 1, name: "Cap", is_reserved: false },
        BitVecFieldDescriptor { len: 1, name: "66MHz", is_reserved: false },
        BitVecFieldDescriptor { len: 1, name: "Reserved 2", is_reserved: true },
        BitVecFieldDescriptor { len: 1, name: "FastB2B", is_reserved: false },
        BitVecFieldDescriptor { len: 1, name: "MasterDataParErr", is_reserved: false },
        BitVecFieldDescriptor { len: 1, name: "DEVSEL", is_reserved: false },
        BitVecFieldDescriptor { len: 1, name: "SigTAbrt", is_reserved: false },
        BitVecFieldDescriptor { len: 1, name: "RecvTAbrt", is_reserved: false },
        BitVecFieldDescriptor { len: 1, name: "RecvMAbrt", is_reserved: false },
        BitVecFieldDescriptor { len: 1, name: "SigSysErr", is_reserved: false },
        BitVecFieldDescriptor { len: 1, name: "ParErr", is_reserved: false },
    ]
}

/// The display line of a status register value.
pub open spec fn status_text(value: u16) -> Seq<char> {
    flags_line(set_flags(status_table(), value), cleared_flags(status_table(), value))
}

fn status_fields() -> (r: [BitVecFieldDescriptor; 13])
    ensures
        r@ == status_table(),
        bits_total(r@) == 15,
{
    let r = [
        BitVecFieldDescriptor { len: 3, name: "Reserved 1", is_reserved: true },
        BitVecFieldDescriptor { len: 1, name: "INTx", is_reserved: false },
        BitVecFieldDescriptor { len: 1, name: "Cap", is_reserved: false },
        BitVecFieldDescriptor { len: 1, name: "66MHz", is_reserved: false },
        BitVecFieldDescriptor { len: 1, name: "Reserved 2", is_reserved: true },
        BitVecFieldDescriptor { len: 1, name: "FastB2B", is_reserved: false },
        BitVecFieldDescriptor { len: 1, name: "MasterDataParErr", is_reserved: false },
        BitVecFieldDescriptor { len: 1, name: "DEVSEL", is_reserved: false },
        BitVecFieldDescriptor { len: 1, name: "SigTAbrt", is_reserved: false },
        BitVecFieldDescriptor { len: 1, name: "RecvTAbrt", is_reserved: false },
        BitVecFieldDescriptor { len: 1, name: "RecvMAbrt", is_reserved: false },
        BitVecFieldDescriptor { len: 1, name: "SigSysErr", is_reserved: false },
        BitVecFieldDescriptor { len: 1, name: "ParErr", is_reserved: false },
    ];
    assert(r@ =~= status_table());
    proof {
        let s = r@;
        assert(bits_total(s.subrange(0, 0)) == 0);
        assert(s.subrange(0, 1).drop_last() =~= s.subrange(0, 0));
        assert(s.subrange(0, 1).last().len == 3);
        assert(bits_total(s.subrange(0, 1)) == 3);
        assert(s.subrange(0, 2).drop_last() =~= s.subrange(0, 1));
        assert(s.subrange(0, 2).last().len == 1);
        assert(bits_total(s.subrange(0, 2)) == 4);
        assert(s.subrange(0, 3).drop_last() =~= s.subrange(0, 2));
        assert(s.subrange(0, 3).last().len == 1);
        assert(bits_total(s.subrange(0, 3)) == 5);
        assert(s.subrange(0, 4).drop_last() =~= s.subrange(0, 3));
        assert(s.subrange(0, 4).last().len == 1);
        assert(bits_total(s.subrange(0, 4)) == 6);
        assert(s.subrange(0, 5).drop_last() =~= s.subrange(0, 4));
        assert(s.subrange(0, 5).last().len == 1);
        assert(bits_total(s.subrange(0, 5)) == 7);
        assert(s.subrange(0, 6).drop_last() =~= s.subrange(0, 5));
        assert(s.subrange(0, 6).last().len == 1);
        assert(bits_total(s.subrange(0, 6)) == 8);
        assert(s.subrange(0, 7).drop_last() =~= s.subrange(0, 6));
        assert(s.subrange(0, 7).last().len == 1);
        assert(bits_total(s.subrange(0, 7)) == 9);
        assert(s.subrange(0, 8).drop_last() =~= s.subrange(0, 7));
        assert(s.subrange(0, 8).last().len == 1);
        assert(bits_total(s.subrange(0, 8)) == 10);
        assert(s.subrange(0, 9).drop_last() =~= s.subrange(0, 8));
        assert(s.subrange(0, 9).last().len == 1);
        assert(bits_total(s.subrange(0, 9)) == 11);
        assert(s.subrange(0, 10).drop_last() =~= s.subrange(0, 9));
        assert(s.subrange(0, 10).last().len == 1);
        assert(bits_total(s.subrange(0, 10)) == 12);
        assert(s.subrange(0, 11).drop_last() =~= s.subrange(0, 10));
        assert(s.subrange(0, 11).last().len == 1);
        assert(bits_total(s.subrange(0, 11)) == 13);
        assert(s.subrange(0, 12).drop_last() =~= s.subrange(0, 11));
        assert(s.subrange(0, 12).last().len == 1);
        assert(bits_total(s.subrange(0, 12)) == 14);
        assert(s.subrange(0, 13).drop_last() =~= s.subrange(0, 12));
        assert(s.subrange(0, 13).last().len == 1);
        assert(bits_total(s.subrange(0, 13)) == 15);
        assert(s.subrange(0, 13) =~= s);
        assert(bits_total(s) == 15);
    }
    r
}

/// The 16-bit status register value.
pub struct StatusRegister {
    pub vector: u16,
}

impl From<u16> for StatusRegister {
    fn from(value: u16) -> (r: Self)
        ensures
            r.vector == value,
    {
        Self { vector: value }
    }
}

impl vstd::std_specs::convert::FromSpecImpl<u16> for StatusRegister {
    open spec fn obeys_from_spec() -> bool {
        true
    }

    open spec fn from_spec(value: u16) -> Self {
        StatusRegister { vector: value }
    }
}

/// Renders a status register as its flag line.
pub struct StatusPrettyPrinter {}

impl StatusPrettyPrinter {
    pub fn new() -> Self {
        Self {}
    }

    /// The flag line of `reg`: set flags, then cleared ones (see `status_text`).
    pub fn print(&self, reg: &StatusRegister) -> (r: String)
        ensures
            r@ == status_text(reg.vector),
    {
        let fields = status_fields();
        let (set, cleared) = decode_bit_flags(fields.as_slice(), reg.vector);
        format_flags_line(set, cleared)
    }
}

} // verus!
