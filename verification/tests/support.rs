use substrate::debug::{enable_debug, is_debug_enabled, log_hex};
use substrate::error::SubstrateError;
use substrate::hook::memory::ProtectedMemory;
use substrate::symbol::elf::{load_elf_symbols, lookup_symbol};
use substrate::symbol::memmap::load_memory_maps;
use substrate::utils::{find_library, get_absolute_address, is_library_loaded, string_to_offset};
use substrate::{is_debug, set_debug, DebugFlag};

#[test]
fn string_to_offset_parses_hex() {
    assert_eq!(string_to_offset(&b"0x123456".to_vec()).unwrap(), 0x123456);
    assert_eq!(string_to_offset(&b"123456".to_vec()).unwrap(), 0x123456);
    assert_eq!(string_to_offset(&b"0XABCdef".to_vec()).unwrap(), 0xabcdef);
    assert_eq!(string_to_offset(&b"0".to_vec()).unwrap(), 0);
    assert_eq!(
        string_to_offset(&b"ffffffffffffffff".to_vec()).unwrap(),
        usize::MAX
    );
}

#[test]
fn string_to_offset_rejects_garbage() {
    assert!(matches!(
        string_to_offset(&b"".to_vec()),
        Err(SubstrateError::ParseError(_))
    ));
    assert!(matches!(
        string_to_offset(&b"0x".to_vec()),
        Err(SubstrateError::ParseError(_))
    ));
    assert!(matches!(
        string_to_offset(&b"12g4".to_vec()),
        Err(SubstrateError::ParseError(_))
    ));
    assert!(matches!(
        string_to_offset(&b"10000000000000000".to_vec()),
        Err(SubstrateError::ParseError(_))
    ));
}

fn maps_text() -> Vec<u8> {
    let mut t = Vec::new();
    t.extend_from_slice(b"00400000-00452000 r-xp 00000000 08:02 173521 /usr/bin/dbus-daemon\n");
    t.extend_from_slice(b"7f100000-7f200000 rw-p 00000000 00:00 0\n");
    t.extend_from_slice(b"00600000-00651000 rw-p 00000000 08:02 173521 /usr/bin/dbus-daemon\n");
    t
}

#[test]
fn find_library_reads_line_base() {
    let base = find_library(&b"dbus-daemon".to_vec(), &maps_text()).unwrap();
    assert_eq!(base, 0x0040_0000);
}

#[test]
fn find_library_reports_missing() {
    let r = find_library(&b"libabsent.so".to_vec(), &maps_text());
    assert!(matches!(r, Err(SubstrateError::LibraryNotFound(_))));
}

#[test]
fn absolute_address_adds_offset() {
    let a = get_absolute_address(&b"dbus-daemon".to_vec(), 0x123, &maps_text()).unwrap();
    assert_eq!(a, 0x0040_0123);
}

#[test]
fn library_loaded_check() {
    assert!(is_library_loaded(&b"dbus-daemon".to_vec(), &maps_text()));
    assert!(!is_library_loaded(&b"libabsent.so".to_vec(), &maps_text()));
}

#[test]
fn memory_maps_merge_by_name() {
    let maps = load_memory_maps(&maps_text()).unwrap();
    assert_eq!(maps.len(), 2);
    let lib = maps
        .iter()
        .find(|m| m.name == b"/usr/bin/dbus-daemon".to_vec())
        .expect("library span");
    assert_eq!(lib.start, 0x0040_0000);
    assert_eq!(lib.end, 0x0065_1000);
    let anon = maps
        .iter()
        .find(|m| m.name == b"[memory]".to_vec())
        .expect("anonymous span");
    assert_eq!(anon.start, 0x7f10_0000);
    assert_eq!(anon.end, 0x7f20_0000);
}

fn put_u16(v: &mut Vec<u8>, off: usize, x: u16) {
    v[off] = x as u8;
    v[off + 1] = (x >> 8) as u8;
}

fn put_u32(v: &mut Vec<u8>, off: usize, x: u32) {
    v[off..off + 4].copy_from_slice(&x.to_le_bytes());
}

fn tiny_elf() -> Vec<u8> {
    let mut v = vec![0u8; 271];
    v[0] = 0x7f;
    v[1] = b'E';
    v[2] = b'L';
    v[3] = b'F';
    put_u32(&mut v, 32, 52); // section headers start
    put_u16(&mut v, 46, 40); // section header size
    put_u16(&mut v, 48, 4); // section count
    put_u16(&mut v, 50, 3); // section-name table index

    // section 1: dynamic symbol table at 212, two entries
    let sh1 = 52 + 40;
    put_u32(&mut v, sh1 + 4, 11);
    put_u32(&mut v, sh1 + 16, 212);
    put_u32(&mut v, sh1 + 20, 32);

    // section 2: .dynstr at 244
    let sh2 = 52 + 80;
    put_u32(&mut v, sh2, 1);
    put_u32(&mut v, sh2 + 4, 3);
    put_u32(&mut v, sh2 + 16, 244);
    put_u32(&mut v, sh2 + 20, 8);

    // section 3: .shstrtab at 252
    let sh3 = 52 + 120;
    put_u32(&mut v, sh3, 9);
    put_u32(&mut v, sh3 + 4, 3);
    put_u32(&mut v, sh3 + 16, 252);
    put_u32(&mut v, sh3 + 20, 19);

    // symbol 1: "myfunc", a global function at 0x1234
    let sym1 = 212 + 16;
    put_u32(&mut v, sym1, 1);
    put_u32(&mut v, sym1 + 4, 0x1234);
    v[sym1 + 12] = 0x12;
    put_u16(&mut v, sym1 + 14, 1);

    v[244..252].copy_from_slice(b"\0myfunc\0");
    v[252..271].copy_from_slice(b"\0.dynstr\0.shstrtab\0");
    v
}

#[test]
fn elf_symbols_resolve() {
    let image = tiny_elf();
    let syms = load_elf_symbols(&image).unwrap();
    assert!(syms.dynamic_symbols.is_some());
    assert!(syms.static_symbols.is_none());
    assert_eq!(lookup_symbol(&syms, &b"myfunc".to_vec()), Some(0x1234));
    assert_eq!(lookup_symbol(&syms, &b"missing".to_vec()), None);
}

#[test]
fn elf_magic_is_checked() {
    let image = vec![0u8; 64];
    assert!(matches!(
        load_elf_symbols(&image),
        Err(SubstrateError::ElfParsing(_))
    ));
}

#[test]
fn protected_memory_scope() {
    let m = ProtectedMemory::new(0x1234, 0x10, 0x1000).unwrap();
    assert_eq!(m.address, 0x1000);
    assert_eq!(m.width, 0x1000);

    let m = ProtectedMemory::new(0xfff, 2, 0x1000).unwrap();
    assert_eq!(m.address, 0);
    assert_eq!(m.width, 0x2000);

    assert!(matches!(
        ProtectedMemory::new(0, 16, 0x1000),
        Err(SubstrateError::NullPointer)
    ));
    assert!(matches!(
        ProtectedMemory::new(0x1000, 0, 0x1000),
        Err(SubstrateError::NullPointer)
    ));
}

#[test]
fn debug_switch() {
    let mut flag = DebugFlag { enabled: false };
    assert!(!is_debug(&flag));
    set_debug(&mut flag, true);
    assert!(is_debug(&flag));
    set_debug(&mut flag, false);
    enable_debug(&mut flag);
    assert!(is_debug_enabled(&flag));
}

#[test]
fn hex_dump_respects_switch() {
    let off = DebugFlag { enabled: false };
    let on = DebugFlag { enabled: true };
    let data = vec![0x41u8, 0x42, 0x00, 0xff];
    assert!(log_hex(&off, &data, 1).is_empty());
    let text = log_hex(&on, &data, 1);
    assert!(!text.is_empty());
    let s = String::from_utf8(text).expect("ascii dump");
    assert!(s.contains("41"));
    assert!(s.contains("AB"));
}

#[test]
fn string_to_offset_strips_repeated_markers() {
    // every leading marker repetition is removed before parsing
    assert_eq!(string_to_offset(&b"0x0x12".to_vec()).unwrap(), 0x12);
}
