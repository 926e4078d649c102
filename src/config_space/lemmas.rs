use vstd::prelude::*;

use super::command::command_table;
use super::header_type::{
    MaskFieldDescriptor, header_type_table, mask_cleared_flags, mask_set_flags,
};
use super::hex::{hex_digit, hex_text};
use super::shared::{BitVecFieldDescriptor, cleared_flags, flag, flags_line, joined, set_flags};
use super::space::{
    ConfigSpace, FieldDescriptor, MIN_CONFIG_SPACE_LEN, NAME_COLUMN_WIDTH, field_line,
    field_value_text, header_layout, header_text, layout_bytes, layout_lines, lemma_header_layout_bytes,
    padded,
};
use super::status::status_table;

verus! {

/// Whether `s` holds no line break.
pub open spec fn has_no_newline(s: Seq<char>) -> bool {
    forall|j: int| 0 <= j < s.len() ==> s[j] != '\n'
}

/// Whether `line` is a report line for the field `name`: it starts with the
/// name padded to the name column, ends with a line break and holds no
/// other line break.
pub open spec fn is_field_line(line: Seq<char>, name: Seq<char>) -> bool {
    let head = padded(name, NAME_COLUMN_WIDTH as nat);
    &&& line.len() > head.len()
    &&& line.subrange(0, head.len() as int) == head
    &&& line.last() == '\n'
    &&& has_no_newline(line.drop_last())
}

/// The report of a block of at least `MIN_CONFIG_SPACE_LEN` bytes is exactly
/// twelve lines, one per header field in layout order, each ending with a
/// line break.
pub proof fn lemma_header_lines(bytes: Seq<u8>)
    requires
        bytes.len() >= MIN_CONFIG_SPACE_LEN,
    ensures
        header_text(bytes) == layout_lines(header_layout(), bytes).flatten(),
        layout_lines(header_layout(), bytes).len() == 12,
        forall|i: int|
            0 <= i < 12 ==> is_field_line(
                #[trigger] layout_lines(header_layout(), bytes)[i],
                header_layout()[i].name@,
            ),
{
    lemma_table_names();
    lemma_lines_shape(header_layout(), bytes);
}

/// The report reads only the bytes of the header layout, which lies within
/// the first `MIN_CONFIG_SPACE_LEN` bytes: two blocks that agree there give
/// the same report.
pub proof fn lemma_header_reads_within_block(a: Seq<u8>, b: Seq<u8>)
    requires
        a.len() >= MIN_CONFIG_SPACE_LEN,
        b.len() >= MIN_CONFIG_SPACE_LEN,
        a.subrange(0, MIN_CONFIG_SPACE_LEN as int) == b.subrange(0, MIN_CONFIG_SPACE_LEN as int),
    ensures
        layout_bytes(header_layout()) <= MIN_CONFIG_SPACE_LEN,
        header_text(a) == header_text(b),
{
    lemma_header_layout_bytes();
    lemma_lines_agree(header_layout(), a, b);
}

/// Decoding is a function of the block's bytes alone: decoding one block
/// twice, or two blocks with the same bytes, gives the same report.
pub proof fn lemma_decode_deterministic(a: ConfigSpace, b: ConfigSpace)
    requires
        a@ == b@,
    ensures
        header_text(a@) == header_text(b@),
{
}

proof fn lemma_lines_agree(t: Seq<FieldDescriptor>, a: Seq<u8>, b: Seq<u8>)
    requires
        layout_bytes(t) <= MIN_CONFIG_SPACE_LEN,
        a.len() >= MIN_CONFIG_SPACE_LEN,
        b.len() >= MIN_CONFIG_SPACE_LEN,
        a.subrange(0, MIN_CONFIG_SPACE_LEN as int) == b.subrange(0, MIN_CONFIG_SPACE_LEN as int),
    ensures
        layout_lines(t, a) == layout_lines(t, b),
    decreases t.len(),
{
    if t.len() > 0 {
        lemma_lines_agree(t.drop_last(), a, b);
        let start = layout_bytes(t.drop_last()) as int;
        let end = start + t.last().len;
        let n = MIN_CONFIG_SPACE_LEN as int;
        assert(a.subrange(start, end) =~= a.subrange(0, n).subrange(start, end));
        assert(b.subrange(start, end) =~= b.subrange(0, n).subrange(start, end));
    }
}

proof fn lemma_lines_shape(t: Seq<FieldDescriptor>, bytes: Seq<u8>)
    requires
        forall|i: int| 0 <= i < t.len() ==> has_no_newline(#[trigger] t[i].name@),
        forall|i: int| 0 <= i < command_table().len() ==> has_no_newline(#[trigger] command_table()[i].name@),
        forall|i: int| 0 <= i < status_table().len() ==> has_no_newline(#[trigger] status_table()[i].name@),
        forall|i: int|
            0 <= i < header_type_table().len() ==> has_no_newline(#[trigger] header_type_table()[i].name@),
    ensures
        layout_lines(t, bytes).len() == t.len(),
        forall|i: int| 0 <= i < t.len() ==> is_field_line(#[trigger] layout_lines(t, bytes)[i], t[i].name@),
    decreases t.len(),
{
    if t.len() > 0 {
        let prev = t.drop_last();
        lemma_lines_shape(prev, bytes);
        let start = layout_bytes(prev) as int;
        lemma_field_line_shape(t.last(), bytes.subrange(start, start + t.last().len));
        assert forall|i: int| 0 <= i < t.len() implies is_field_line(
            #[trigger] layout_lines(t, bytes)[i],
            t[i].name@,
        ) by {
            if i < t.len() - 1 {
                assert(prev[i] == t[i]);
            }
        }
    }
}

proof fn lemma_field_line_shape(d: FieldDescriptor, b: Seq<u8>)
    requires
        has_no_newline(d.name@),
        forall|i: int| 0 <= i < command_table().len() ==> has_no_newline(#[trigger] command_table()[i].name@),
        forall|i: int| 0 <= i < status_table().len() ==> has_no_newline(#[trigger] status_table()[i].name@),
        forall|i: int|
            0 <= i < header_type_table().len() ==> has_no_newline(#[trigger] header_type_table()[i].name@),
    ensures
        is_field_line(field_line(d, b), d.name@),
{
    let head = padded(d.name@, NAME_COLUMN_WIDTH as nat);
    let value = field_value_text(d, b);
    let line = field_line(d, b);
    lemma_value_text_no_newline(d, b);
    assert(has_no_newline(head));
    let body = head + seq![':', ' '] + value;
    assert(line =~= body.push('\n'));
    assert(line.drop_last() =~= body);
    assert(line.subrange(0, head.len() as int) =~= head);
}

proof fn lemma_value_text_no_newline(d: FieldDescriptor, b: Seq<u8>)
    requires
        forall|i: int| 0 <= i < command_table().len() ==> has_no_newline(#[trigger] command_table()[i].name@),
        forall|i: int| 0 <= i < status_table().len() ==> has_no_newline(#[trigger] status_table()[i].name@),
        forall|i: int|
            0 <= i < header_type_table().len() ==> has_no_newline(#[trigger] header_type_table()[i].name@),
    ensures
        has_no_newline(field_value_text(d, b)),
{
    lemma_hex_no_newline((b[0] + 256 * b[1]) as nat, 4);
    lemma_hex_no_newline(b[0] as nat, 2);
    lemma_hex_no_newline((b[0] + 256 * b[1] + 65536 * b[2] + 16777216 * b[3]) as nat, 8);
    let v16 = (b[0] + 256 * b[1]) as nat as u16;
    lemma_bit_flags_no_newline(command_table(), v16);
    lemma_flags_line_no_newline(set_flags(command_table(), v16), cleared_flags(command_table(), v16));
    lemma_bit_flags_no_newline(status_table(), v16);
    lemma_flags_line_no_newline(set_flags(status_table(), v16), cleared_flags(status_table(), v16));
    lemma_mask_flags_no_newline(header_type_table(), b[0]);
    lemma_flags_line_no_newline(
        mask_set_flags(header_type_table(), b[0]),
        mask_cleared_flags(header_type_table(), b[0]),
    );
}

proof fn lemma_hex_no_newline(v: nat, width: nat)
    ensures
        has_no_newline(hex_text(v, width)),
    decreases width,
{
    if width > 0 {
        lemma_hex_no_newline(v / 16, (width - 1) as nat);
        let d = v % 16;
        assert(hex_digit(d) != '\n');
    }
}

proof fn lemma_joined_no_newline(items: Seq<Seq<char>>)
    requires
        forall|i: int| 0 <= i < items.len() ==> has_no_newline(#[trigger] items[i]),
    ensures
        has_no_newline(joined(items)),
    decreases items.len(),
{
    if items.len() > 1 {
        lemma_joined_no_newline(items.drop_last());
        assert(has_no_newline(items.last()));
    }
}

proof fn lemma_flags_line_no_newline(set: Seq<Seq<char>>, cleared: Seq<Seq<char>>)
    requires
        forall|i: int| 0 <= i < set.len() ==> has_no_newline(#[trigger] set[i]),
        forall|i: int| 0 <= i < cleared.len() ==> has_no_newline(#[trigger] cleared[i]),
    ensures
        has_no_newline(flags_line(set, cleared)),
{
    lemma_joined_no_newline(set);
    lemma_joined_no_newline(cleared);
}

proof fn lemma_bit_flags_no_newline(t: Seq<BitVecFieldDescriptor>, value: u16)
    requires
        forall|i: int| 0 <= i < t.len() ==> has_no_newline(#[trigger] t[i].name@),
    ensures
        forall|i: int| 0 <= i < set_flags(t, value).len() ==> has_no_newline(#[trigger] set_flags(t, value)[i]),
        forall|i: int|
            0 <= i < cleared_flags(t, value).len() ==> has_no_newline(#[trigger] cleared_flags(t, value)[i]),
    decreases t.len(),
{
    if t.len() > 0 {
        lemma_bit_flags_no_newline(t.drop_last(), value);
        assert(has_no_newline(t.last().name@));
        assert(has_no_newline(flag('+', t.last().name@)));
        assert(has_no_newline(flag('-', t.last().name@)));
        let set_prev = set_flags(t.drop_last(), value);
        let cleared_prev = cleared_flags(t.drop_last(), value);
        assert forall|i: int| 0 <= i < set_flags(t, value).len() implies has_no_newline(
            #[trigger] set_flags(t, value)[i],
        ) by {
            if i < set_prev.len() {
                assert(set_flags(t, value)[i] == set_prev[i]);
            }
        }
        assert forall|i: int| 0 <= i < cleared_flags(t, value).len() implies has_no_newline(
            #[trigger] cleared_flags(t, value)[i],
        ) by {
            if i < cleared_prev.len() {
                assert(cleared_flags(t, value)[i] == cleared_prev[i]);
            }
        }
    }
}

proof fn lemma_mask_flags_no_newline(t: Seq<MaskFieldDescriptor>, value: u8)
    requires
        forall|i: int| 0 <= i < t.len() ==> has_no_newline(#[trigger] t[i].name@),
    ensures
        forall|i: int|
            0 <= i < mask_set_flags(t, value).len() ==> has_no_newline(#[trigger] mask_set_flags(t, value)[i]),
        forall|i: int|
            0 <= i < mask_cleared_flags(t, value).len() ==> has_no_newline(
                #[trigger] mask_cleared_flags(t, value)[i],
            ),
    decreases t.len(),
{
    if t.len() > 0 {
        lemma_mask_flags_no_newline(t.drop_last(), value);
        assert(has_no_newline(t.last().name@));
        assert(has_no_newline(flag('+', t.last().name@)));
        assert(has_no_newline(flag('-', t.last().name@)));
        let set_prev = mask_set_flags(t.drop_last(), value);
        let cleared_prev = mask_cleared_flags(t.drop_last(), value);
        assert forall|i: int| 0 <= i < mask_set_flags(t, value).len() implies has_no_newline(
            #[trigger] mask_set_flags(t, value)[i],
        ) by {
            if i < set_prev.len() {
                assert(mask_set_flags(t, value)[i] == set_prev[i]);
            }
        }
        assert forall|i: int| 0 <= i < mask_cleared_flags(t, value).len() implies has_no_newline(
            #[trigger] mask_cleared_flags(t, value)[i],
        ) by {
            if i < cleared_prev.len() {
                assert(mask_cleared_flags(t, value)[i] == cleared_prev[i]);
            }
        }
    }
}

/// No name in the register tables or the header layout holds a line break.
proof fn lemma_table_names()
    ensures
        forall|i: int| 0 <= i < command_table().len() ==> has_no_newline(#[trigger] command_table()[i].name@),
        forall|i: int| 0 <= i < status_table().len() ==> has_no_newline(#[trigger] status_table()[i].name@),
        forall|i: int|
            0 <= i < header_type_table().len() ==> has_no_newline(#[trigger] header_type_table()[i].name@),
        forall|i: int| 0 <= i < header_layout().len() ==> has_no_newline(#[trigger] header_layout()[i].name@),
{
    reveal_strlit("66MHz");
    reveal_strlit("BusMaster");
    reveal_strlit("Cap");
    reveal_strlit("DEVSEL");
    reveal_strlit("DisINTx");
    reveal_strlit("FastB2B");
    reveal_strlit("I/O");
    reveal_strlit("INTx");
    reveal_strlit("MasterDataParErr");
    reveal_strlit("Mem");
    reveal_strlit("MemWINV");
    reveal_strlit("MultiFunction");
    reveal_strlit("PCItoCardBusBridge");
    reveal_strlit("PCItoPCIBridge");
    reveal_strlit("ParErr");
    reveal_strlit("RecvMAbrt");
    reveal_strlit("RecvTAbrt");
    reveal_strlit("Reserved 1");
    reveal_strlit("Reserved 2");
    reveal_strlit("SERR");
    reveal_strlit("SigSysErr");
    reveal_strlit("SigTAbrt");
    reveal_strlit("SpecCycle");
    reveal_strlit("VGASnoop");
    reveal_strlit("bist");
    reveal_strlit("cache_line_size");
    reveal_strlit("class");
    reveal_strlit("command");
    reveal_strlit("device_id");
    reveal_strlit("header_type");
    reveal_strlit("latency_timer");
    reveal_strlit("prog_if");
    reveal_strlit("revision");
    reveal_strlit("status");
    reveal_strlit("subclass");
    reveal_strlit("vendor_id");
    assert(has_no_newline("66MHz"@));
    assert(has_no_newline("BusMaster"@));
    assert(has_no_newline("Cap"@));
    assert(has_no_newline("DEVSEL"@));
    assert(has_no_newline("DisINTx"@));
    assert(has_no_newline("FastB2B"@));
    assert(has_no_newline("I/O"@));
    assert(has_no_newline("INTx"@));
    assert(has_no_newline("MasterDataParErr"@));
    assert(has_no_newline("Mem"@));
    assert(has_no_newline("MemWINV"@));
    assert(has_no_newline("MultiFunction"@));
    assert(has_no_newline("PCItoCardBusBridge"@));
    assert(has_no_newline("PCItoPCIBridge"@));
    assert(has_no_newline("ParErr"@));
    assert(has_no_newline("RecvMAbrt"@));
    assert(has_no_newline("RecvTAbrt"@));
    assert(has_no_newline("Reserved 1"@));
    assert(has_no_newline("Reserved 2"@));
    assert(has_no_newline("SERR"@));
    assert(has_no_newline("SigSysErr"@));
    assert(has_no_newline("SigTAbrt"@));
    assert(has_no_newline("SpecCycle"@));
    assert(has_no_newline("VGASnoop"@));
    assert(has_no_newline("bist"@));
    assert(has_no_newline("cache_line_size"@));
    assert(has_no_newline("class"@));
    assert(has_no_newline("command"@));
    assert(has_no_newline("device_id"@));
    assert(has_no_newline("header_type"@));
    assert(has_no_newline("latency_timer"@));
    assert(has_no_newline("prog_if"@));
    assert(has_no_newline("revision"@));
    assert(has_no_newline("status"@));
    assert(has_no_newline("subclass"@));
    assert(has_no_newline("vendor_id"@));
}

} // verus!
