use vstd::prelude::*;

use super::shared::{
    BitVecFieldDescriptor, bits_total, cleared_flags, decode_bit_flags, flags_line,
    format_flags_line, set_flags,
};

verus! {

/// Bits of the command register, lowest first.
pub open spec fn command_table() -> Seq<BitVecFieldDescriptor> {
    seq![
        BitVecFieldDescriptor { len: 1, name: "I/O", is_reserved: false },
        BitVecFieldDescriptor { len: 1, name: "Mem", is_reserved: false },
        BitVecFieldDescriptor { len: 1, name: "BusMaster", is_reserved: false },
        BitVecFieldDescriptor { len: 1, name: "SpecCycle", is_reserved: false },
        BitVecFieldDescriptor { len: 1, name: "MemWINV", is_reserved: false },
        BitVecFieldDescriptor { len: 1, name: "VGASnoop", is_reserved: false },
        BitVecFieldDescriptor { len: 1, name: "ParErr", is_reserved: false },
        BitVecFieldDescriptor { len: 1, name: "Reserved 1", is_reserved: true },
        BitVecFieldDescriptor { len: 1, name: "SERR", is_reserved: false },
        BitVecFieldDescriptor { len: 1, name: "FastB2B", is_reserved: false },
        BitVecFieldDescriptor { len: 1, name: "DisINTx", is_reserved: false },
        BitVecFieldDescriptor { len: 4, name: "Reserved 2", is_reserved: true },
    ]
}

/// The display line of a command register value.
pub open spec fn command_text(value: u16) -> Seq<char> {
    flags_line(set_flags(command_table(), value), cleared_flags(command_table(), value))
}

fn command_fields() -> (r: [BitVecFieldDescriptor; 12])
    ensures
        r@ == command_table(),
        bits_total(r@) == 15,
{
    let r = [
        BitVecFieldDescriptor { len: 1, name: "I/O", is_reserved: false },
        BitVecFieldDescriptor { len: 1, name: "Mem", is_reserved: false },
        BitVecFieldDescriptor { len: 1, name: "BusMaster", is_reserved: false },
        BitVecFieldDescriptor { len: 1, name: "SpecCycle", is_reserved: false },
        BitVecFieldDescriptor { len: 1, name: "MemWINV", is_reserved: false },
        BitVecFieldDescriptor { len: 1, name: "VGASnoop", is_reserved: false },
        BitVecFieldDescriptor { len: 1, name: "ParErr", is_reserved: false },
        BitVecFieldDescriptor { len: 1, name: "Reserved 1", is_reserved: true },
        BitVecFieldDescriptor { len: 1, name: "SERR", is_reserved: false },
        BitVecFieldDescriptor { len: 1, name: "FastB2B", is_reserved: false },
        BitVecFieldDescriptor { len: 1, name: "DisINTx", is_reserved: false },
        BitVecFieldDescriptor { len: 4, name: "Reserved 2", is_reserved: true },
    ];
    assert(r@ =~= command_table());
    proof {
        let s = r@;
        assert(bits_total(s.subrange(0, 0)) == 0);
        assert(s.subrange(0, 1).drop_last() =~= s.subrange(0, 0));
        assert(s.subrange(0, 1).last().len == 1);
        assert(bits_total(s.subrange(0, 1)) == 1);
        assert(s.subrange(0, 2).drop_last() =~= s.subrange(0, 1));
        assert(s.subrange(0, 2).last().len == 1);
        assert(bits_total(s.subrange(0, 2)) == 2);
        assert(s.subrange(0, 3).drop_last() =~= s.subrange(0, 2));
        assert(s.subrange(0, 3).last().len == 1);
        assert(bits_total(s.subrange(0, 3)) == 3);
        assert(s.subrange(0, 4).drop_last() =~= s.subrange(0, 3));
        assert(s.subrange(0, 4).last().len == 1);
        assert(bits_total(s.subrange(0, 4)) == 4);
        assert(s.subrange(0, 5).drop_last() =~= s.subrange(0, 4));
        assert(s.subrange(0, 5).last().len == 1);
        assert(bits_total(s.subrange(0, 5)) == 5);
        assert(s.subrange(0, 6).drop_last() =~= s.subrange(0, 5));
        assert(s.subrange(0, 6).last().len == 1);
        assert(bits_total(s.subrange(0, 6)) == 6);
        assert(s.subrange(0, 7).drop_last() =~= s.subrange(0, 6));
        assert(s.subrange(0, 7).last().len == 1);
        assert(bits_total(s.subrange(0, 7)) == 7);
        assert(s.subrange(0, 8).drop_last() =~= s.subrange(0, 7));
        assert(s.subrange(0, 8).last().len == 1);
        assert(bits_total(s.subrange(0, 8)) == 8);
        assert(s.subrange(0, 9).drop_last() =~= s.subrange(0, 8));
        assert(s.subrange(0, 9).last().len == 1);
        assert(bits_total(s.subrange(0, 9)) == 9);
        assert(s.subrange(0, 10).drop_last() =~= s.subrange(0, 9));
        assert(s.subrange(0, 10).last().len == 1);
        assert(bits_total(s.subrange(0, 10)) == 10);
        assert(s.subrange(0, 11).drop_last() =~= s.subrange(0, 10));
        assert(s.subrange(0, 11).last().len == 1);
        assert(bits_total(s.subrange(0, 11)) == 11);
        assert(s.subrange(0, 12).drop_last() =~= s.subrange(0, 11));
        assert(s.subrange(0, 12).last().len == 4);
        assert(bits_total(s.subrange(0, 12)) == 15);
        assert(s.subrange(0, 12) =~= s);
        assert(bits_total(s) == 15);
    }
    r
}

/// The 16-bit command register value.
pub struct CommandRegister {
    pub vector: u16,
}

impl From<u16> for CommandRegister {
    fn from(value: u16) -> (r: Self)
        ensures
            r.vector == value,
    {
        Self { vector: value }
    }
}

impl vstd::std_specs::convert::FromSpecImpl<u16> for CommandRegister {
    open spec fn obeys_from_spec() -> bool {
        true
    }

    open spec fn from_spec(value: u16) -> Self {
        CommandRegister { vector: value }
    }
}

/// Renders a command register as its flag line.
pub struct CommandPrettyPrinter {}

impl CommandPrettyPrinter {
    pub fn new() -> Self {
        Self {}
    }

    /// The flag line of `reg`: set flags, then cleared ones (see `command_text`).
    pub fn print(&self, reg: &CommandRegister) -> (r: String)
        ensures
            r@ == command_text(reg.vector),
    {
        let fields = command_fields();
        let (set, cleared) = decode_bit_flags(fields.as_slice(), reg.vector);
        format_flags_line(set, cleared)
    }
}

} // verus!
