use vstd::prelude::*;
use vstd::slice::slice_subrange;
use vstd::string::*;

use super::command::{CommandPrettyPrinter, CommandRegister, command_text};
use super::header_type::{HeaderTypePrettyPrinter, HeaderTypeRegister, header_type_text};
use super::hex::{hex_text, push_hex};
use super::status::{StatusPrettyPrinter, StatusRegister, status_text};

verus! {

/// Smallest configuration space block accepted, in bytes.
pub const MIN_CONFIG_SPACE_LEN: usize = 64;

/// Width of the name column of a header line.
pub const NAME_COLUMN_WIDTH: usize = 20;

/// How a header field is rendered.
pub enum FieldKind {
    BitField,
    CommandRegister,
    StatusRegister,
    HeaderTypeRegister,
    AddressField,
    IntField,
    IdField,
}

/// One field of the header layout: `len` bytes named `name`.
pub struct FieldDescriptor {
    pub len: usize,
    pub name: &'static str,
    pub kind: FieldKind,
}

/// The type-0 header fields in the order they are laid out; each field
/// starts where the previous one ends.
pub open spec fn header_layout() -> Seq<FieldDescriptor> {
    seq![
        FieldDescriptor { len: 2, name: "vendor_id", kind: FieldKind::IdField },
        FieldDescriptor { len: 2, name: "device_id", kind: FieldKind::IdField },
        FieldDescriptor { len: 2, name: "command", kind: FieldKind::CommandRegister },
        FieldDescriptor { len: 2, name: "status", kind: FieldKind::StatusRegister },
        FieldDescriptor { len: 1, name: "revision", kind: FieldKind::AddressField },
        FieldDescriptor { len: 1, name: "prog_if", kind: FieldKind::IdField },
        FieldDescriptor { len: 1, name: "subclass", kind: FieldKind::IdField },
        FieldDescriptor { len: 1, name: "class", kind: FieldKind::IdField },
        FieldDescriptor { len: 1, name: "cache_line_size", kind: FieldKind::IntField },
        FieldDescriptor { len: 1, name: "latency_timer", kind: FieldKind::IntField },
        FieldDescriptor { len: 1, name: "header_type", kind: FieldKind::HeaderTypeRegister },
        FieldDescriptor { len: 1, name: "bist", kind: FieldKind::BitField },
    ]
}

/// Number of bytes covered by the layout `t`.
pub open spec fn layout_bytes(t: Seq<FieldDescriptor>) -> nat
    decreases t.len(),
{
    if t.len() == 0 {
        0
    } else {
        layout_bytes(t.drop_last()) + t.last().len as nat
    }
}

/// The little-endian value of two bytes.
pub open spec fn le16(b: Seq<u8>) -> nat {
    (b[0] + 256 * b[1]) as nat
}

/// The little-endian value of four bytes.
pub open spec fn le32(b: Seq<u8>) -> nat {
    (b[0] + 256 * b[1] + 65536 * b[2] + 16777216 * b[3]) as nat
}

/// Whether a field's length suits its kind: registers have their width,
/// every other field at least one byte.
pub open spec fn field_is_valid(d: FieldDescriptor) -> bool {
    match d.kind {
        FieldKind::CommandRegister | FieldKind::StatusRegister => d.len == 2,
        _ => d.len >= 1,
    }
}

/// The rendered value of a field whose bytes are `b`.
pub open spec fn field_value_text(d: FieldDescriptor, b: Seq<u8>) -> Seq<char> {
    match d.kind {
        FieldKind::CommandRegister => command_text(le16(b) as u16) + seq![' ', '[', '0', 'x']
            + hex_text(le16(b), 4) + seq![']'],
        FieldKind::StatusRegister => status_text(le16(b) as u16) + seq![' ', '[', '0', 'x']
            + hex_text(le16(b), 4) + seq![']'],
        FieldKind::HeaderTypeRegister => header_type_text(b[0]) + seq![' ', '[', '0', 'x']
            + hex_text(b[0] as nat, 2) + seq![']'],
        _ => if d.len == 1 {
            seq!['0', 'x'] + hex_text(b[0] as nat, 2)
        } else if d.len == 2 {
            seq!['0', 'x'] + hex_text(le16(b), 4)
        } else if d.len == 4 {
            seq!['0', 'x'] + hex_text(le32(b), 8)
        } else {
            Seq::empty()
        },
    }
}

/// `name` followed by spaces up to `width` characters (never cut).
pub open spec fn padded(name: Seq<char>, width: nat) -> Seq<char> {
    if name.len() >= width {
        name
    } else {
        name + Seq::new((width - name.len()) as nat, |i: int| ' ')
    }
}

/// The output line of a field whose bytes are `b`.
pub open spec fn field_line(d: FieldDescriptor, b: Seq<u8>) -> Seq<char> {
    padded(d.name@, NAME_COLUMN_WIDTH as nat) + seq![':', ' '] + field_value_text(d, b) + seq!['\n']
}

/// One line per field of `t`, each rendered from the bytes that the field
/// covers in `bytes`.
pub open spec fn layout_lines(t: Seq<FieldDescriptor>, bytes: Seq<u8>) -> Seq<Seq<char>>
    decreases t.len(),
{
    if t.len() == 0 {
        Seq::empty()
    } else {
        let start = layout_bytes(t.drop_last()) as int;
        layout_lines(t.drop_last(), bytes).push(
            field_line(t.last(), bytes.subrange(start, start + t.last().len)),
        )
    }
}

/// The header report of a configuration space block.
pub open spec fn header_text(bytes: Seq<u8>) -> Seq<char> {
    layout_lines(header_layout(), bytes).flatten()
}

fn header_fields() -> (r: [FieldDescriptor; 12])
    ensures
        r@ == header_layout(),
        layout_bytes(r@) == 16,
{
    let r = [
        FieldDescriptor { len: 2, name: "vendor_id", kind: FieldKind::IdField },
        FieldDescriptor { len: 2, name: "device_id", kind: FieldKind::IdField },
        FieldDescriptor { len: 2, name: "command", kind: FieldKind::CommandRegister },
        FieldDescriptor { len: 2, name: "status", kind: FieldKind::StatusRegister },
        FieldDescriptor { len: 1, name: "revision", kind: FieldKind::AddressField },
        FieldDescriptor { len: 1, name: "prog_if", kind: FieldKind::IdField },
        FieldDescriptor { len: 1, name: "subclass", kind: FieldKind::IdField },
        FieldDescriptor { len: 1, name: "class", kind: FieldKind::IdField },
        FieldDescriptor { len: 1, name: "cache_line_size", kind: FieldKind::IntField },
        FieldDescriptor { len: 1, name: "latency_timer", kind: FieldKind::IntField },
        FieldDescriptor { len: 1, name: "header_type", kind: FieldKind::HeaderTypeRegister },
        FieldDescriptor { len: 1, name: "bist", kind: FieldKind::BitField },
    ];
    assert(r@ =~= header_layout());
    proof {
        lemma_header_layout_bytes();
    }
    r
}

/// A raw configuration space block of at least `MIN_CONFIG_SPACE_LEN` bytes.
#[derive(Debug, PartialEq, Eq)]
pub struct ConfigSpace {
    slice: Vec<u8>,
}

impl View for ConfigSpace {
    type V = Seq<u8>;

    closed spec fn view(&self) -> Seq<u8> {
        self.slice@
    }
}

impl ConfigSpace {
    #[verifier::type_invariant]
    spec fn inv(&self) -> bool {
        self.slice@.len() >= MIN_CONFIG_SPACE_LEN
    }

    /// Takes ownership of a block of at least `MIN_CONFIG_SPACE_LEN` bytes.
    pub fn from(bytes: Vec<u8>) -> (r: Self)
        requires
            bytes@.len() >= MIN_CONFIG_SPACE_LEN,
        ensures
            r@ == bytes@,
    {
        ConfigSpace { slice: bytes }
    }

    /// Takes ownership of `bytes` when the block is long enough.
    pub fn try_from_bytes(bytes: Vec<u8>) -> (r: Option<Self>)
        ensures
            r is Some <==> bytes@.len() >= MIN_CONFIG_SPACE_LEN,
            r matches Some(cs) ==> cs@ == bytes@,
    {
        if bytes.len() >= MIN_CONFIG_SPACE_LEN {
            Some(Self::from(bytes))
        } else {
            None
        }
    }
}

/// Appends `name` followed by spaces up to `width` characters.
fn push_padded(out: &mut String, name: &str, width: usize)
    ensures
        final(out)@ == old(out)@ + padded(name@, width as nat),
{
    let ghost before = out@;
    out.append(name);
    let name_len = name.unicode_len();
    let mut pad = name_len;
    while pad < width
        invariant
            name_len == name@.len(),
            name_len <= pad,
            pad <= width || pad == name_len,
            out@ == before + name@ + Seq::new((pad - name_len) as nat, |j: int| ' '),
        decreases width - pad,
    {
        out.append(" ");
        proof {
            reveal_strlit(" ");
            assert(out@ =~= before + name@ + Seq::new((pad + 1 - name_len) as nat, |j: int| ' '));
        }
        pad += 1;
    }
    assert(out@ =~= before + padded(name@, width as nat));
}

/// Renders a configuration space block as one line per header field.
pub struct ConfigSpacePrettyPrinter {}

impl ConfigSpacePrettyPrinter {
    pub fn new() -> Self {
        Self {}
    }

    /// The little-endian value of a two-byte slice.
    pub fn assemble_u16(&self, val: &[u8]) -> (r: u16)
        requires
            val@.len() == 2,
        ensures
            r as nat == le16(val@),
    {
        let b0 = val[0];
        let b1 = val[1];
        let r = (b1 as u16) << 8 | (b0 as u16);
        assert(r == b0 as u16 + 256 * (b1 as u16)) by (bit_vector)
            requires
                r == (b1 as u16) << 8 | (b0 as u16),
        ;
        r
    }

    /// The little-endian value of a four-byte slice.
    pub fn assemble_u32(&self, val: &[u8]) -> (r: u32)
        requires
            val@.len() == 4,
        ensures
            r as nat == le32(val@),
    {
        let b0 = val[0];
        let b1 = val[1];
        let b2 = val[2];
        let b3 = val[3];
        let r = (b3 as u32) << 24 | (b2 as u32) << 16 | (b1 as u32) << 8 | (b0 as u32);
        assert(r == b0 as u32 + 256 * (b1 as u32) + 65536 * (b2 as u32) + 16777216 * (b3 as u32))
            by (bit_vector)
            requires
                r == (b3 as u32) << 24 | (b2 as u32) << 16 | (b1 as u32) << 8 | (b0 as u32),
        ;
        r
    }

    fn print_value(&self, desc: &FieldDescriptor, slice: &[u8]) -> (r: String)
        requires
            field_is_valid(*desc),
            slice@.len() == desc.len,
        ensures
            r@ == field_value_text(*desc, slice@),
    {
        proof {
            reveal_strlit(" [0x");
            reveal_strlit("]");
            reveal_strlit("0x");
        }
        match desc.kind {
            FieldKind::CommandRegister => {
                let value = self.assemble_u16(slice);
                let reg = CommandRegister::from(value);
                let printer = CommandPrettyPrinter::new();
                let mut out = printer.print(&reg);
                out.append(" [0x");
                push_hex(&mut out, value as u32, 4);
                out.append("]");
                out
            },
            FieldKind::StatusRegister => {
                let value = self.assemble_u16(slice);
                let reg = StatusRegister::from(value);
                let printer = StatusPrettyPrinter::new();
                let mut out = printer.print(&reg);
                out.append(" [0x");
                push_hex(&mut out, value as u32, 4);
                out.append("]");
                out
            },
            FieldKind::HeaderTypeRegister => {
                let value = slice[0];
                let reg = HeaderTypeRegister::from(value);
                let printer = HeaderTypePrettyPrinter::new();
                let mut out = printer.print(&reg);
                out.append(" [0x");
                push_hex(&mut out, value as u32, 2);
                out.append("]");
                out
            },
            _ => {
                let mut out = String::new();
                if desc.len == 1 {
                    out.append("0x");
                    push_hex(&mut out, slice[0] as u32, 2);
                } else if desc.len == 2 {
                    let value = self.assemble_u16(slice);
                    out.append("0x");
                    push_hex(&mut out, value as u32, 4);
                } else if desc.len == 4 {
                    let value = self.assemble_u32(slice);
                    out.append("0x");
                    push_hex(&mut out, value, 8);
                }
                out
            },
        }
    }

    /// The report of `cf`: for each header field in layout order, its name
    /// padded to the name column, `": "`, its rendered value and a newline.
    pub fn print(&self, cf: &ConfigSpace) -> (r: String)
        ensures
            r@ == header_text(cf@),
    {
        proof {
            use_type_invariant(cf);
        }
        let fields = header_fields();
        let bytes = cf.slice.as_slice();
        let mut out = String::new();
        let mut offset: usize = 0;
        let mut i: usize = 0;
        while i < fields.len()
            invariant
                i <= fields@.len(),
                fields@ == header_layout(),
                layout_bytes(fields@) == 16,
                bytes@ == cf@,
                cf@.len() >= MIN_CONFIG_SPACE_LEN,
                offset == layout_bytes(fields@.subrange(0, i as int)),
                out@ == layout_lines(fields@.subrange(0, i as int), cf@).flatten(),
            decreases fields@.len() - i,
        {
            let ghost prefix = fields@.subrange(0, i as int);
            let ghost next = fields@.subrange(0, i + 1);
            proof {
                assert(next.drop_last() =~= prefix);
                lemma_layout_bytes_prefix(fields@, i + 1);
                lemma_header_fields_valid(i as int);
            }
            let desc = &fields[i];
            let low = offset;
            let high = offset + desc.len;
            let slice = slice_subrange(bytes, low, high);
            let value = self.print_value(desc, slice);
            let ghost before = out@;
            push_padded(&mut out, desc.name, NAME_COLUMN_WIDTH);
            out.append(": ");
            out.append(value.as_str());
            out.append("\n");
            proof {
                reveal_strlit(": ");
                reveal_strlit("\n");
                let line = field_line(*desc, cf@.subrange(low as int, high as int));
                assert(slice@ =~= cf@.subrange(low as int, high as int));
                assert(out@ =~= before + line);
                assert(layout_lines(next, cf@) =~= layout_lines(prefix, cf@).push(line));
                layout_lines(prefix, cf@).lemma_flatten_push(line);
            }
            offset = high;
            i += 1;
        }
        proof {
            assert(fields@.subrange(0, fields@.len() as int) =~= fields@);
        }
        out
    }
}

/// The bytes covered by a prefix of `t` are at most those covered by `t`.
proof fn lemma_layout_bytes_prefix(t: Seq<FieldDescriptor>, n: int)
    requires
        0 <= n <= t.len(),
    ensures
        layout_bytes(t.subrange(0, n)) <= layout_bytes(t),
    decreases t.len() - n,
{
    if n < t.len() {
        lemma_layout_bytes_prefix(t, n + 1);
        assert(t.subrange(0, n + 1).drop_last() =~= t.subrange(0, n));
    } else {
        assert(t.subrange(0, n) =~= t);
    }
}

proof fn lemma_header_fields_valid(i: int)
    requires
        0 <= i < 12,
    ensures
        header_layout().len() == 12,
        field_is_valid(header_layout()[i]),
{
}

/// The header layout covers the first sixteen bytes.
pub(crate) proof fn lemma_header_layout_bytes()
    ensures
        layout_bytes(header_layout()) == 16,
{
    let s = header_layout();
    assert(layout_bytes(s.subrange(0, 0)) == 0);
    assert(s.subrange(0, 1).drop_last() =~= s.subrange(0, 0));
    assert(layout_bytes(s.subrange(0, 1)) == 2);
    assert(s.subrange(0, 2).drop_last() =~= s.subrange(0, 1));
    assert(layout_bytes(s.subrange(0, 2)) == 4);
    assert(s.subrange(0, 3).drop_last() =~= s.subrange(0, 2));
    assert(layout_bytes(s.subrange(0, 3)) == 6);
    assert(s.subrange(0, 4).drop_last() =~= s.subrange(0, 3));
    assert(layout_bytes(s.subrange(0, 4)) == 8);
    assert(s.subrange(0, 5).drop_last() =~= s.subrange(0, 4));
    assert(layout_bytes(s.subrange(0, 5)) == 9);
    assert(s.subrange(0, 6).drop_last() =~= s.subrange(0, 5));
    assert(layout_bytes(s.subrange(0, 6)) == 10);
    assert(s.subrange(0, 7).drop_last() =~= s.subrange(0, 6));
    assert(layout_bytes(s.subrange(0, 7)) == 11);
    assert(s.subrange(0, 8).drop_last() =~= s.subrange(0, 7));
    assert(layout_bytes(s.subrange(0, 8)) == 12);
    assert(s.subrange(0, 9).drop_last() =~= s.subrange(0, 8));
    assert(layout_bytes(s.subrange(0, 9)) == 13);
    assert(s.subrange(0, 10).drop_last() =~= s.subrange(0, 9));
    assert(layout_bytes(s.subrange(0, 10)) == 14);
    assert(s.subrange(0, 11).drop_last() =~= s.subrange(0, 10));
    assert(layout_bytes(s.subrange(0, 11)) == 15);
    assert(s.subrange(0, 12).drop_last() =~= s.subrange(0, 11));
    assert(layout_bytes(s.subrange(0, 12)) == 16);
    assert(s.subrange(0, 12) =~= s);
    assert(s.subrange(0, 12) =~= s);
}

} // verus!
