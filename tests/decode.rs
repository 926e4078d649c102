use lspci::{
    Address, BitVecFieldDescriptor, CommandPrettyPrinter, CommandRegister, ConfigSpace,
    ConfigSpacePrettyPrinter, HeaderTypePrettyPrinter, HeaderTypeRegister, MaskFieldDescriptor,
    StatusPrettyPrinter, StatusRegister, decode_bit_flags, decode_mask_flags, format_flags_line,
};

fn strings(items: &[&str]) -> Vec<String> {
    items.iter().map(|s| s.to_string()).collect()
}

fn sample_block() -> Vec<u8> {
    let mut bytes = vec![
        0x86, 0x80, 0x13, 0x15, 0x07, 0x00, 0x90, 0x02, 0x03, 0x00, 0x00, 0x06, 0x10, 0x20, 0x80,
        0x00,
    ];
    bytes.resize(64, 0);
    bytes
}

const SAMPLE_REPORT: &str = "vendor_id           : 0x8086\n\
device_id           : 0x1513\n\
command             : +I/O +Mem +BusMaster -SpecCycle -MemWINV -VGASnoop -ParErr -SERR -FastB2B -DisINTx [0x0007]\n\
status              : +Cap +FastB2B +DEVSEL -INTx -66MHz -MasterDataParErr -SigTAbrt -RecvTAbrt -RecvMAbrt -SigSysErr -ParErr [0x0290]\n\
revision            : 0x03\n\
prog_if             : 0x00\n\
subclass            : 0x00\n\
class               : 0x06\n\
cache_line_size     : 0x10\n\
latency_timer       : 0x20\n\
header_type         : +MultiFunction -PCItoPCIBridge -PCItoCardBusBridge [0x80]\n\
bist                : 0x00\n";

#[test]
fn block_of_64_bytes_is_accepted() {
    assert!(ConfigSpace::try_from_bytes(vec![0u8; 64]).is_some());
    assert!(ConfigSpace::try_from_bytes(vec![0xffu8; 4096]).is_some());
}

#[test]
fn block_under_64_bytes_is_refused() {
    assert!(ConfigSpace::try_from_bytes(vec![0u8; 63]).is_none());
    assert!(ConfigSpace::try_from_bytes(Vec::new()).is_none());
}

#[test]
fn report_ignores_bytes_past_the_header() {
    let printer = ConfigSpacePrettyPrinter::new();
    let short = printer.print(&ConfigSpace::from(sample_block()));
    let mut long_bytes = sample_block();
    long_bytes.resize(256, 0xaa);
    let long = printer.print(&ConfigSpace::from(long_bytes));
    assert_eq!(short, long);
}

#[test]
fn assemble_u16_is_little_endian() {
    let printer = ConfigSpacePrettyPrinter::new();
    assert_eq!(printer.assemble_u16(&[0x34, 0x12]), 0x1234);
    assert_eq!(printer.assemble_u16(&[0xff, 0x00]), 0x00ff);
}

#[test]
fn assemble_u32_uses_all_four_bytes() {
    let printer = ConfigSpacePrettyPrinter::new();
    assert_eq!(printer.assemble_u32(&[0x11, 0x22, 0x33, 0x44]), 0x44332211);
    assert_eq!(printer.assemble_u32(&[0x00, 0xab, 0xcd, 0x00]), 0x00cdab00);
}

#[test]
fn report_has_twelve_lines_in_field_order() {
    let printer = ConfigSpacePrettyPrinter::new();
    let report = printer.print(&ConfigSpace::from(vec![0u8; 64]));
    assert!(report.ends_with('\n'));
    let lines: Vec<&str> = report.split_terminator('\n').collect();
    assert_eq!(lines.len(), 12);
    assert_eq!(report.matches('\n').count(), 12);
    let names = [
        "vendor_id",
        "device_id",
        "command",
        "status",
        "revision",
        "prog_if",
        "subclass",
        "class",
        "cache_line_size",
        "latency_timer",
        "header_type",
        "bist",
    ];
    for (line, name) in lines.iter().zip(names.iter()) {
        assert_eq!(&line[..20], format!("{:<20}", name));
        assert_eq!(&line[20..22], ": ");
    }
}

#[test]
fn report_of_sample_block() {
    let printer = ConfigSpacePrettyPrinter::new();
    assert_eq!(printer.print(&ConfigSpace::from(sample_block())), SAMPLE_REPORT);
}

#[test]
fn report_of_zero_block() {
    let printer = ConfigSpacePrettyPrinter::new();
    let report = printer.print(&ConfigSpace::from(vec![0u8; 64]));
    let lines: Vec<&str> = report.split_terminator('\n').collect();
    assert_eq!(lines[0], "vendor_id           : 0x0000");
    assert_eq!(
        lines[3],
        "status              : -INTx -Cap -66MHz -FastB2B -MasterDataParErr -DEVSEL -SigTAbrt -RecvTAbrt -RecvMAbrt -SigSysErr -ParErr [0x0000]"
    );
    assert_eq!(
        lines[10],
        "header_type         : -PCItoPCIBridge -PCItoCardBusBridge -MultiFunction [0x00]"
    );
}

#[test]
fn command_0x0007() {
    let line = CommandPrettyPrinter::new().print(&CommandRegister::from(0x0007));
    assert_eq!(
        line,
        "+I/O +Mem +BusMaster -SpecCycle -MemWINV -VGASnoop -ParErr -SERR -FastB2B -DisINTx"
    );
    let report = ConfigSpacePrettyPrinter::new().print(&ConfigSpace::from(sample_block()));
    let command_line = report.lines().nth(2).unwrap();
    assert!(command_line.ends_with(&format!("{} [0x0007]", line)));
}

#[test]
fn command_all_set_and_all_clear() {
    let printer = CommandPrettyPrinter::new();
    assert_eq!(
        printer.print(&CommandRegister::from(0xffff)),
        "+I/O +Mem +BusMaster +SpecCycle +MemWINV +VGASnoop +ParErr +SERR +FastB2B +DisINTx"
    );
    assert_eq!(
        printer.print(&CommandRegister::from(0x0000)),
        "-I/O -Mem -BusMaster -SpecCycle -MemWINV -VGASnoop -ParErr -SERR -FastB2B -DisINTx"
    );
    // the reserved bit 7 never shows
    assert_eq!(
        printer.print(&CommandRegister::from(0x0080)),
        "-I/O -Mem -BusMaster -SpecCycle -MemWINV -VGASnoop -ParErr -SERR -FastB2B -DisINTx"
    );
}

#[test]
fn status_0x0210() {
    let line = StatusPrettyPrinter::new().print(&StatusRegister::from(0x0210));
    assert_eq!(
        line,
        "+Cap +DEVSEL -INTx -66MHz -FastB2B -MasterDataParErr -SigTAbrt -RecvTAbrt -RecvMAbrt -SigSysErr -ParErr"
    );
    assert!(!line.contains("Reserved"));
}

#[test]
fn status_received_target_abort() {
    let line = StatusPrettyPrinter::new().print(&StatusRegister::from(0x0810));
    assert_eq!(
        line,
        "+Cap +RecvTAbrt -INTx -66MHz -FastB2B -MasterDataParErr -DEVSEL -SigTAbrt -RecvMAbrt -SigSysErr -ParErr"
    );
}

#[test]
fn status_reserved_bits_never_show() {
    let printer = StatusPrettyPrinter::new();
    assert_eq!(
        printer.print(&StatusRegister::from(0x0047)),
        "-INTx -Cap -66MHz -FastB2B -MasterDataParErr -DEVSEL -SigTAbrt -RecvTAbrt -RecvMAbrt -SigSysErr -ParErr"
    );
    let line = printer.print(&StatusRegister::from(0x004f));
    assert_eq!(
        line,
        "+INTx -Cap -66MHz -FastB2B -MasterDataParErr -DEVSEL -SigTAbrt -RecvTAbrt -RecvMAbrt -SigSysErr -ParErr"
    );
}

#[test]
fn header_type_0x80() {
    let line = HeaderTypePrettyPrinter::new().print(&HeaderTypeRegister::from(0x80));
    assert_eq!(line, "+MultiFunction -PCItoPCIBridge -PCItoCardBusBridge");
}

#[test]
fn header_type_bridge_bits() {
    let printer = HeaderTypePrettyPrinter::new();
    assert_eq!(
        printer.print(&HeaderTypeRegister::from(0x01)),
        "+PCItoPCIBridge +MultiFunction -PCItoCardBusBridge"
    );
    assert_eq!(
        printer.print(&HeaderTypeRegister::from(0x03)),
        "+PCItoPCIBridge +PCItoCardBusBridge +MultiFunction"
    );
    assert_eq!(
        printer.print(&HeaderTypeRegister::from(0x00)),
        "-PCItoPCIBridge -PCItoCardBusBridge -MultiFunction"
    );
}

#[test]
fn flags_line_only_set() {
    assert_eq!(format_flags_line(strings(&["+A", "+B", "+C"]), vec![]), "+A +B +C");
}

#[test]
fn flags_line_only_cleared() {
    assert_eq!(format_flags_line(vec![], strings(&["-A", "-B"])), "-A -B");
}

#[test]
fn flags_line_single_set_keeps_trailing_space() {
    assert_eq!(format_flags_line(strings(&["+A"]), vec![]), "+A ");
}

#[test]
fn flags_line_single_cleared_keeps_leading_space() {
    assert_eq!(format_flags_line(vec![], strings(&["-A"])), " -A");
}

#[test]
fn flags_line_both_empty() {
    assert_eq!(format_flags_line(vec![], vec![]), " ");
}

#[test]
fn flags_line_mixed() {
    assert_eq!(format_flags_line(strings(&["+A", "+B"]), strings(&["-C"])), "+A +B -C");
}

#[test]
fn decoding_twice_gives_the_same_report() {
    let printer = ConfigSpacePrettyPrinter::new();
    let block = ConfigSpace::from(sample_block());
    let first = printer.print(&block);
    let second = printer.print(&block);
    assert_eq!(first, second);
    let again = printer.print(&ConfigSpace::from(sample_block()));
    assert_eq!(first, again);
}

#[test]
fn bit_flags_with_multi_bit_reserved_span() {
    let fields = [
        BitVecFieldDescriptor { len: 1, name: "A", is_reserved: false },
        BitVecFieldDescriptor { len: 3, name: "R", is_reserved: true },
        BitVecFieldDescriptor { len: 1, name: "B", is_reserved: false },
        BitVecFieldDescriptor { len: 1, name: "C", is_reserved: false },
    ];
    let (set, cleared) = decode_bit_flags(&fields, 0b01_0001);
    assert_eq!(set, strings(&["+A", "+B"]));
    assert_eq!(cleared, strings(&["-C"]));
    let (set, cleared) = decode_bit_flags(&fields, 0b00_1110);
    assert_eq!(set, Vec::<String>::new());
    assert_eq!(cleared, strings(&["-A", "-B", "-C"]));
}

#[test]
fn mask_flags_test_each_mask_on_its_own() {
    let fields = [
        MaskFieldDescriptor { mask: 0x0f, name: "Low" },
        MaskFieldDescriptor { mask: 0xf0, name: "High" },
        MaskFieldDescriptor { mask: 0x11, name: "Both" },
    ];
    let (set, cleared) = decode_mask_flags(&fields, 0x10);
    assert_eq!(set, strings(&["+High", "+Both"]));
    assert_eq!(cleared, strings(&["-Low"]));
}

#[test]
fn address_fields_and_order() {
    let a = Address::new(0, 31, 7);
    assert_eq!((a.bus, a.device, a.function), (0, 31, 7));
    assert!(Address::new(0, 31, 7) < Address::new(1, 0, 0));
    assert!(Address::new(1, 2, 3) < Address::new(1, 3, 0));
    assert!(Address::new(1, 2, 3) < Address::new(1, 2, 4));
    assert_eq!(Address::new(4, 5, 6), Address::new(4, 5, 6));
    let mut list = vec![Address::new(2, 0, 0), Address::new(0, 1, 1), Address::new(0, 1, 0)];
    list.sort();
    assert_eq!(list, vec![Address::new(0, 1, 0), Address::new(0, 1, 1), Address::new(2, 0, 0)]);
}
