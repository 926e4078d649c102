mod command;
mod header_type;
mod hex;
mod lemmas;
mod shared;
mod space;
mod status;

pub use command::{CommandPrettyPrinter, CommandRegister, command_table, command_text};
pub use header_type::{
    HeaderTypePrettyPrinter, HeaderTypeRegister, MaskFieldDescriptor, decode_mask_flags,
    header_type_table, header_type_text, mask_cleared_flags, mask_hit, mask_set_flags,
};
pub use hex::{hex_digit, hex_text};
pub(crate) use hex::push_hex;
pub use lemmas::{
    has_no_newline, is_field_line, lemma_decode_deterministic, lemma_header_lines,
    lemma_header_reads_within_block,
};
pub use shared::{
    BitVecFieldDescriptor, bit_at, bits_total, cleared_flags, decode_bit_flags, flag, flags_line,
    format_flags_line, joined, set_flags, strings_view,
};
pub use space::{
    ConfigSpace, ConfigSpacePrettyPrinter, FieldDescriptor, FieldKind, MIN_CONFIG_SPACE_LEN,
    NAME_COLUMN_WIDTH, field_is_valid, field_line, field_value_text, header_layout, header_text,
    layout_bytes, layout_lines, le16, le32, padded,
};
pub use status::{StatusPrettyPrinter, StatusRegister, status_table, status_text};
