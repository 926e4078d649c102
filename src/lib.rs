//! Decoding of a PCI device's type-0 configuration space header into named
//! fields, with the bit-flag registers rendered as `+name` / `-name` lists.
mod address;
mod config_space;

pub use address::{
    Address, dir_address, first_dot, hex_byte, hex_char_value, hex_number, is_hex_char, short_hex,
};
pub use config_space::{
    BitVecFieldDescriptor, CommandPrettyPrinter, CommandRegister, ConfigSpace,
    ConfigSpacePrettyPrinter, FieldDescriptor, FieldKind, HeaderTypePrettyPrinter,
    HeaderTypeRegister, MIN_CONFIG_SPACE_LEN, MaskFieldDescriptor, NAME_COLUMN_WIDTH,
    StatusPrettyPrinter, StatusRegister, bit_at, bits_total, cleared_flags, command_table,
    command_text, decode_bit_flags, decode_mask_flags, field_is_valid, field_line,
    field_value_text, flag, flags_line, format_flags_line, has_no_newline, header_layout,
    header_text, header_type_table, header_type_text, hex_digit, hex_text, is_field_line,
    joined, layout_bytes, layout_lines, le16, le32, lemma_decode_deterministic,
    lemma_header_lines, lemma_header_reads_within_block, mask_cleared_flags, mask_hit,
    mask_set_flags, padded, set_flags, status_table, status_text, strings_view,
};
