//! ELF32 symbol-table parsing from an image's bytes.
//!
//! The embedder reads the library file; the parser walks its section
//! headers, collects the static and dynamic symbol tables with their
//! string tables, and resolves a function symbol's value by name. Reads
//! past the end of the image yield zero bytes, as a short positioned
//! read into a zeroed buffer would.

use vstd::prelude::*;

use crate::error::SubstrateError;

verus! {

pub const SHT_SYMTAB: u32 = 2;

pub const SHT_DYNSYM: u32 = 11;

pub const SHT_STRTAB: u32 = 3;

pub const STT_FUNC: u8 = 2;

/// One ELF32 symbol-table entry.
pub struct Elf32Sym {
    pub st_name: u32,
    pub st_value: u32,
    pub st_size: u32,
    pub st_info: u8,
    pub st_other: u8,
    pub st_shndx: u16,
}

/// A symbol table with its string table.
pub struct SymbolTable {
    pub symbols: Vec<Elf32Sym>,
    pub strings: Vec<u8>,
}

/// The symbol tables of one image.
pub struct ElfSymbols {
    pub static_symbols: Option<SymbolTable>,
    pub dynamic_symbols: Option<SymbolTable>,
}

/// The byte at `off`, or zero past the end of the image.
fn byte_at(image: &Vec<u8>, off: u64) -> (r: u8)
    ensures
        off < image@.len() ==> r == image@[off as int],
        off >= image@.len() ==> r == 0,
{
    if off < image.len() as u64 {
        image[off as usize]
    } else {
        0
    }
}

/// A little-endian 16-bit field at `off`.
fn read_u16_at(image: &Vec<u8>, off: u64) -> (r: u16)
    requires
        off < 0xffff_ffff_0000_0000,
{
    (byte_at(image, off) as u16) + (byte_at(image, off + 1) as u16) * 0x100
}

/// A little-endian 32-bit field at `off`.
fn read_u32_at(image: &Vec<u8>, off: u64) -> (r: u32)
    requires
        off < 0xffff_ffff_0000_0000,
{
    (byte_at(image, off) as u32) + (byte_at(image, off + 1) as u32) * 0x100 + (byte_at(
        image,
        off + 2,
    ) as u32) * 0x1_0000 + (byte_at(image, off + 3) as u32) * 0x100_0000
}

/// The nul-terminated string at `strings[off..]` equals `name`, which
/// itself holds no nul.
pub open spec fn spec_cstr_matches(strings: Seq<u8>, off: int, name: Seq<u8>) -> bool {
    &&& 0 <= off
    &&& off + name.len() < strings.len()
    &&& (forall|i: int| 0 <= i < name.len() ==> #[trigger] strings[off + i] == name[i] && name[i]
        != 0)
    &&& strings[off + name.len()] == 0
}

/// Whether the nul-terminated string at `strings[name_offset..]` equals
/// `name`.
fn cstr_matches(strings: &Vec<u8>, name_offset: usize, name: &Vec<u8>) -> (r: bool)
    ensures
        r == spec_cstr_matches(strings@, name_offset as int, name@),
{
    let n = strings.len();
    let m = name.len();
    if name_offset >= n {
        return false;
    }
    let mut i: usize = 0;
    while i < m
        invariant
            n == strings@.len(),
            m == name@.len(),
            i <= m,
            name_offset < n,
            forall|t: int|
                0 <= t < i ==> #[trigger] strings@[name_offset + t] == name@[t] && name@[t] != 0,
        decreases m - i,
    {
        if i >= n - name_offset {
            return false;
        }
        if strings[name_offset + i] != name[i] {
            return false;
        }
        if name[i] == 0 {
            return false;
        }
        i = i + 1;
    }
    m < n - name_offset && strings[name_offset + m] == 0
}

/// Loads one symbol table and its strings from the image.
fn load_symbol_table(image: &Vec<u8>, sym_off: u32, sym_size: u32, str_off: u32, str_size: u32)
    -> (r: Result<SymbolTable, SubstrateError>)
    ensures
        r is Err <==> sym_size % 16 != 0,
        r matches Err(e) ==> e is ElfParsing,
{
    if sym_size % 16 != 0 {
        return Err(SubstrateError::ElfParsing("invalid symbol table size".to_owned()));
    }
    let num_syms: u32 = sym_size / 16;
    let mut symbols: Vec<Elf32Sym> = Vec::new();
    let mut i: u32 = 0;
    while i < num_syms
        invariant
            num_syms <= 0x1000_0000,
            sym_off <= 0xffff_ffff,
        decreases num_syms - i,
    {
        let base: u64 = sym_off as u64 + (i as u64) * 16;
        symbols.push(
            Elf32Sym {
                st_name: read_u32_at(image, base),
                st_value: read_u32_at(image, base + 4),
                st_size: read_u32_at(image, base + 8),
                st_info: byte_at(image, base + 12),
                st_other: byte_at(image, base + 13),
                st_shndx: read_u16_at(image, base + 14),
            },
        );
        i = i + 1;
    }

    let mut strings: Vec<u8> = Vec::new();
    let mut j: u32 = 0;
    while j < str_size
        invariant
            str_off <= 0xffff_ffff,
        decreases str_size - j,
    {
        strings.push(byte_at(image, str_off as u64 + j as u64));
        j = j + 1;
    }
    Ok(SymbolTable { symbols, strings })
}

/// Parses the symbol tables of an ELF32 image: the magic and the section
/// header size are checked, then each section header is scanned for the
/// static and dynamic symbol tables and their `.strtab` and `.dynstr`
/// string tables. Duplicated symbol tables, or a section-name index
/// outside the table, are `ElfParsing` errors.
#[verifier::rlimit(100)]
#[verifier::spinoff_prover]
pub fn load_elf_symbols(image: &Vec<u8>) -> (r: Result<ElfSymbols, SubstrateError>)
    requires
        image@.len() < 0x8000_0000,
    ensures
        r matches Err(e) ==> e is ElfParsing,
        image@.len() >= 4 && !(image@[0] == 0x7f && image@[1] == 0x45 && image@[2] == 0x4c
            && image@[3] == 0x46) ==> r is Err,
{
    let magic_ok = byte_at(image, 0) == 0x7f && byte_at(image, 1) == 0x45 && byte_at(image, 2)
        == 0x4c && byte_at(image, 3) == 0x46;
    if !magic_ok {
        return Err(SubstrateError::ElfParsing("not an ELF image".to_owned()));
    }

    let e_shoff: u32 = read_u32_at(image, 32);
    let e_shentsize: u16 = read_u16_at(image, 46);
    let e_shnum: u16 = read_u16_at(image, 48);
    let e_shstrndx: u16 = read_u16_at(image, 50);

    if e_shentsize != 40 {
        return Err(SubstrateError::ElfParsing("invalid section header size".to_owned()));
    }
    if e_shstrndx >= e_shnum {
        return Err(SubstrateError::ElfParsing("section name table out of range".to_owned()));
    }

    // section name string table
    let shstr_hdr: u64 = e_shoff as u64 + (e_shstrndx as u64) * 40;
    let shstr_off: u32 = read_u32_at(image, shstr_hdr + 16);
    let shstr_size: u32 = read_u32_at(image, shstr_hdr + 20);
    let mut shstrtab: Vec<u8> = Vec::new();
    let mut j: u32 = 0;
    while j < shstr_size
        invariant
            shstr_off <= 0xffff_ffff,
        decreases shstr_size - j,
    {
        shstrtab.push(byte_at(image, shstr_off as u64 + j as u64));
        j = j + 1;
    }

    let strtab_name: Vec<u8> = vec![0x2eu8, 0x73, 0x74, 0x72, 0x74, 0x61, 0x62];
    let dynstr_name: Vec<u8> = vec![0x2eu8, 0x64, 0x79, 0x6e, 0x73, 0x74, 0x72];

    let mut symtab: Option<(u32, u32)> = None;
    let mut dynsym: Option<(u32, u32)> = None;
    let mut strtab: Option<(u32, u32)> = None;
    let mut dynstr: Option<(u32, u32)> = None;

    let mut i: u16 = 0;
    while i < e_shnum
        invariant
            e_shoff <= 0xffff_ffff,
            e_shnum <= 0xffff,
        decreases e_shnum - i,
    {
        let hdr: u64 = e_shoff as u64 + (i as u64) * 40;
        let sh_name: u32 = read_u32_at(image, hdr);
        let sh_type: u32 = read_u32_at(image, hdr + 4);
        let sh_offset: u32 = read_u32_at(image, hdr + 16);
        let sh_size: u32 = read_u32_at(image, hdr + 20);

        if sh_type == SHT_SYMTAB {
            if symtab.is_some() {
                return Err(SubstrateError::ElfParsing("multiple symbol tables".to_owned()));
            }
            symtab = Some((sh_offset, sh_size));
        } else if sh_type == SHT_DYNSYM {
            if dynsym.is_some() {
                return Err(
                    SubstrateError::ElfParsing("multiple dynamic symbol tables".to_owned()),
                );
            }
            dynsym = Some((sh_offset, sh_size));
        } else if sh_type == SHT_STRTAB {
            if (sh_name as usize) < shstrtab.len() {
                if cstr_matches(&shstrtab, sh_name as usize, &strtab_name) {
                    strtab = Some((sh_offset, sh_size));
                } else if cstr_matches(&shstrtab, sh_name as usize, &dynstr_name) {
                    dynstr = Some((sh_offset, sh_size));
                }
            }
        }
        i = i + 1;
    }

    let static_symbols: Option<SymbolTable> = match (symtab, strtab) {
        (Some(sym), Some(st)) => {
            match load_symbol_table(image, sym.0, sym.1, st.0, st.1) {
                Ok(t) => Some(t),
                Err(e) => {
                    return Err(e);
                },
            }
        },
        _ => None,
    };
    let dynamic_symbols: Option<SymbolTable> = match (dynsym, dynstr) {
        (Some(sym), Some(st)) => {
            match load_symbol_table(image, sym.0, sym.1, st.0, st.1) {
                Ok(t) => Some(t),
                Err(e) => {
                    return Err(e);
                },
            }
        },
        _ => None,
    };

    Ok(ElfSymbols { static_symbols, dynamic_symbols })
}

/// Symbol `i` of the table is a function whose name matches.
pub open spec fn spec_sym_match(table: SymbolTable, name: Seq<u8>, i: int) -> bool {
    &&& 0 <= i < table.symbols@.len()
    &&& (table.symbols@[i].st_info & 0xf) == STT_FUNC
    &&& spec_cstr_matches(table.strings@, table.symbols@[i].st_name as int, name)
}

/// Looks `name` up in one table: the value of the first function symbol
/// whose nul-terminated name matches.
fn lookup_in_table(table: &SymbolTable, name: &Vec<u8>) -> (r: Option<usize>)
    ensures
        r matches Some(v) ==> exists|i: int|
            #[trigger] spec_sym_match(*table, name@, i) && v == table.symbols@[i].st_value && (
            forall|s: int| 0 <= s < i ==> !spec_sym_match(*table, name@, s)),
        r is None ==> forall|i: int| !spec_sym_match(*table, name@, i),
{
    let n = table.symbols.len();
    let mut i: usize = 0;
    while i < n
        invariant
            n == table.symbols@.len(),
            forall|t: int| 0 <= t < i ==> !spec_sym_match(*table, name@, t),
        decreases n - i,
    {
        let st_type: u8 = table.symbols[i].st_info & 0xf;
        if st_type == STT_FUNC {
            let name_offset = table.symbols[i].st_name as usize;
            if name_offset < table.strings.len() {
                if cstr_matches(&table.strings, name_offset, name) {
                    proof {
                        assert(spec_sym_match(*table, name@, i as int));
                    }
                    return Some(table.symbols[i].st_value as usize);
                }
            }
        }
        i = i + 1;
    }
    None
}

/// Resolves a function symbol's value: the first matching function
/// symbol of the dynamic table, or, when that table has none, the first
/// of the static table; nothing comes back only when neither table holds
/// one.
pub fn lookup_symbol(symbols: &ElfSymbols, name: &Vec<u8>) -> (r: Option<usize>)
    ensures
        r matches Some(v) ==> ({
            ||| (symbols.dynamic_symbols matches Some(t) && (exists|i: int|
                #[trigger] spec_sym_match(t, name@, i) && v == t.symbols@[i].st_value && (
                forall|s: int| 0 <= s < i ==> !spec_sym_match(t, name@, s))))
            ||| ((symbols.dynamic_symbols matches Some(t0) ==> forall|i: int|
                !spec_sym_match(t0, name@, i)) && (symbols.static_symbols matches Some(t) && (
            exists|i: int|
                #[trigger] spec_sym_match(t, name@, i) && v == t.symbols@[i].st_value && (
                forall|s: int| 0 <= s < i ==> !spec_sym_match(t, name@, s)))))
        }),
        symbols.dynamic_symbols matches Some(t) && (exists|i: int|
            #[trigger] spec_sym_match(t, name@, i)) ==> r is Some,
        symbols.static_symbols matches Some(t) && (exists|i: int|
            #[trigger] spec_sym_match(t, name@, i)) ==> r is Some,
        r is None ==> (symbols.dynamic_symbols matches Some(t) ==> forall|i: int|
            !spec_sym_match(t, name@, i)),
        r is None ==> (symbols.static_symbols matches Some(t) ==> forall|i: int|
            !spec_sym_match(t, name@, i)),
{
    match &symbols.dynamic_symbols {
        Some(dyn_syms) => {
            match lookup_in_table(dyn_syms, name) {
                Some(addr) => {
                    return Some(addr);
                },
                None => {},
            }
        },
        None => {},
    }
    match &symbols.static_symbols {
        Some(static_syms) => lookup_in_table(static_syms, name),
        None => None,
    }
}

} // verus!
