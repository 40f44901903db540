//! The nineteen instruction formats of the default processor.
use vstd::prelude::*;
use crate::definitions::processor::{Format, OperationSeg, SegType};

verus! {

/// The roles of the fields that take an operand in the default format with
/// this id, from the most significant field down.
pub open spec fn default_roles(id: int) -> Seq<SegType> {
    if id == 1 {
        seq![SegType::Op, SegType::Immediate, SegType::Source, SegType::Destination]
    } else if id == 2 {
        seq![SegType::Flag, SegType::Op, SegType::Immediate, SegType::Source, SegType::Destination]
    } else if id == 3 {
        seq![SegType::Op, SegType::Destination, SegType::Immediate]
    } else if id == 4 {
        seq![SegType::Op, SegType::Source, SegType::Destination]
    } else if id == 5 {
        seq![SegType::Op, SegType::Flag, SegType::Flag, SegType::Source, SegType::Destination]
    } else if id == 6 {
        seq![SegType::Destination, SegType::Immediate]
    } else if id == 7 {
        seq![SegType::Flag, SegType::Flag, SegType::Offset, SegType::Source, SegType::Destination]
    } else if id == 8 {
        seq![SegType::Flag, SegType::Flag, SegType::Offset, SegType::Source, SegType::Destination]
    } else if id == 9 {
        seq![SegType::Flag, SegType::Flag, SegType::Offset, SegType::Source, SegType::Destination]
    } else if id == 10 {
        seq![SegType::Flag, SegType::Offset, SegType::Source, SegType::Destination]
    } else if id == 11 {
        seq![SegType::Flag, SegType::Destination, SegType::Offset]
    } else if id == 12 {
        seq![SegType::Flag, SegType::Destination, SegType::Immediate]
    } else if id == 13 {
        seq![SegType::Flag, SegType::Immediate]
    } else if id == 14 {
        seq![SegType::Flag, SegType::Flag, SegType::Immediate]
    } else if id == 15 {
        seq![SegType::Flag, SegType::Source, SegType::Immediate]
    } else if id == 16 {
        seq![SegType::Condition, SegType::Offset]
    } else if id == 17 {
        seq![SegType::Immediate]
    } else if id == 18 {
        seq![SegType::Offset]
    } else if id == 19 {
        seq![SegType::Flag, SegType::Offset]
    } else {
        Seq::empty()
    }
}

/// The bits that the fields of the default format with this id occupy, from
/// the constant field down.
pub open spec fn default_masks(id: int) -> Seq<u16> {
    if id == 1 {
        seq![0xE000u16, 0x1800u16, 0x07C0u16, 0x0038u16, 0x0007u16]
    } else if id == 2 {
        seq![0xF800u16, 0x0400u16, 0x0200u16, 0x01C0u16, 0x0038u16, 0x0007u16]
    } else if id == 3 {
        seq![0xE000u16, 0x1800u16, 0x0700u16, 0x00FFu16]
    } else if id == 4 {
        seq![0xFC00u16, 0x03C0u16, 0x0038u16, 0x0007u16]
    } else if id == 5 {
        seq![0xFC00u16, 0x0300u16, 0x0080u16, 0x0040u16, 0x0038u16, 0x0007u16]
    } else if id == 6 {
        seq![0xF800u16, 0x0700u16, 0x00FFu16]
    } else if id == 7 {
        seq![0xF200u16, 0x0800u16, 0x0400u16, 0x01C0u16, 0x0038u16, 0x0007u16]
    } else if id == 8 {
        seq![0xF200u16, 0x0800u16, 0x0400u16, 0x01C0u16, 0x0038u16, 0x0007u16]
    } else if id == 9 {
        seq![0xE000u16, 0x1000u16, 0x0800u16, 0x07C0u16, 0x0038u16, 0x0007u16]
    } else if id == 10 {
        seq![0xF000u16, 0x0800u16, 0x07C0u16, 0x0038u16, 0x0007u16]
    } else if id == 11 {
        seq![0xF000u16, 0x0800u16, 0x0700u16, 0x00FFu16]
    } else if id == 12 {
        seq![0xF000u16, 0x0800u16, 0x0700u16, 0x00FFu16]
    } else if id == 13 {
        seq![0xFF00u16, 0x0080u16, 0x007Fu16]
    } else if id == 14 {
        seq![0xF600u16, 0x0800u16, 0x0100u16, 0x00FFu16]
    } else if id == 15 {
        seq![0xF000u16, 0x0800u16, 0x0700u16, 0x00FFu16]
    } else if id == 16 {
        seq![0xF000u16, 0x0F00u16, 0x00FFu16]
    } else if id == 17 {
        seq![0xFF00u16, 0x00FFu16]
    } else if id == 18 {
        seq![0xF800u16, 0x07FFu16]
    } else if id == 19 {
        seq![0xF000u16, 0x0800u16, 0x07FFu16]
    } else {
        Seq::empty()
    }
}

/// The legal bit patterns of the fields of the default format with this id,
/// field by field: the constant of the first field, the patterns of a field
/// that takes only some, and nothing for a field that takes every value.
pub open spec fn default_lists(id: int) -> Seq<Option<Seq<u16>>> {
    if id == 1 {
        seq![Some(seq![0x0000u16]), Some(seq![0x0000u16, 0x0800u16, 0x1000u16]), None, None, None]
    } else if id == 2 {
        seq![Some(seq![0x1800u16]), None, None, None, None, None]
    } else if id == 3 {
        seq![Some(seq![0x2000u16]), None, None, None]
    } else if id == 4 {
        seq![Some(seq![0x4000u16]), None, None, None]
    } else if id == 5 {
        seq![Some(seq![0x4400u16]), None, None, None, None, None]
    } else if id == 6 {
        seq![Some(seq![0x4800u16]), None, None]
    } else if id == 7 {
        seq![Some(seq![0x5000u16]), None, None, None, None, None]
    } else if id == 8 {
        seq![Some(seq![0x5200u16]), None, None, None, None, None]
    } else if id == 9 {
        seq![Some(seq![0x6000u16]), None, None, None, None, None]
    } else if id == 10 {
        seq![Some(seq![0x8000u16]), None, None, None, None]
    } else if id == 11 {
        seq![Some(seq![0x9000u16]), None, None, None]
    } else if id == 12 {
        seq![Some(seq![0xA000u16]), None, None, None]
    } else if id == 13 {
        seq![Some(seq![0xB000u16]), None, None]
    } else if id == 14 {
        seq![Some(seq![0xB400u16]), None, None, None]
    } else if id == 15 {
        seq![Some(seq![0xC000u16]), None, None, None]
    } else if id == 16 {
        seq![Some(seq![0xD000u16]), Some(seq![0x0000u16, 0x0100u16, 0x0200u16, 0x0300u16, 0x0400u16, 0x0500u16, 0x0600u16, 0x0700u16, 0x0800u16, 0x0900u16, 0x0A00u16, 0x0B00u16, 0x0C00u16, 0x0D00u16]), None]
    } else if id == 17 {
        seq![Some(seq![0xDF00u16]), None]
    } else if id == 18 {
        seq![Some(seq![0xE000u16]), None]
    } else if id == 19 {
        seq![Some(seq![0xF000u16]), None, None]
    } else {
        Seq::empty()
    }
}

/// What the default format with this id is called.
pub open spec fn default_title(id: int) -> Seq<char> {
    if id == 1 {
        "move shifted register"@
    } else if id == 2 {
        "add/subtract"@
    } else if id == 3 {
        "move/compare/add/subtract immediate"@
    } else if id == 4 {
        "ALU operations"@
    } else if id == 5 {
        "hi register operations/branch exchange"@
    } else if id == 6 {
        "PC-relative load"@
    } else if id == 7 {
        "load/store with register offset"@
    } else if id == 8 {
        "load/store sign-extended byte/halfword"@
    } else if id == 9 {
        "load/store with immediate offset"@
    } else if id == 10 {
        "load/store halfword"@
    } else if id == 11 {
        "SP-relative load/store"@
    } else if id == 12 {
        "load address"@
    } else if id == 13 {
        "add offset to stack pointer"@
    } else if id == 14 {
        "push/pop registers"@
    } else if id == 15 {
        "multiple load/store"@
    } else if id == 16 {
        "conditional branch"@
    } else if id == 17 {
        "software interrupt"@
    } else if id == 18 {
        "unconditional branch"@
    } else if id == 19 {
        "long branch with link"@
    } else {
        Seq::empty()
    }
}

/// What the fields of the default format with this id are called, field by
/// field. The constant field has no name.
pub open spec fn default_names(id: int) -> Seq<Option<Seq<char>>> {
    if id == 1 {
        seq![None, Some("Op"@), Some("Offset5"@), Some("Rs"@), Some("Rd"@)]
    } else if id == 2 {
        seq![None, Some("I"@), Some("Op"@), Some("Rn/Offset3"@), Some("Rs"@), Some("Rd"@)]
    } else if id == 3 {
        seq![None, Some("Op"@), Some("Rd"@), Some("Offset8"@)]
    } else if id == 4 {
        seq![None, Some("Op"@), Some("Rs"@), Some("Rd"@)]
    } else if id == 5 {
        seq![None, Some("Op"@), Some("H1"@), Some("H2"@), Some("Rs/Hs"@), Some("Rd/Hd"@)]
    } else if id == 6 {
        seq![None, Some("Rd"@), Some("Word8"@)]
    } else if id == 7 {
        seq![None, Some("L"@), Some("B"@), Some("Ro"@), Some("Rb"@), Some("Rd"@)]
    } else if id == 8 {
        seq![None, Some("H"@), Some("S"@), Some("Ro"@), Some("Rb"@), Some("Rd"@)]
    } else if id == 9 {
        seq![None, Some("B"@), Some("L"@), Some("Offset5"@), Some("Rb"@), Some("Rd"@)]
    } else if id == 10 {
        seq![None, Some("L"@), Some("Offset5"@), Some("Rb"@), Some("Rd"@)]
    } else if id == 11 {
        seq![None, Some("L"@), Some("Rd"@), Some("Word8"@)]
    } else if id == 12 {
        seq![None, Some("SP"@), Some("Rd"@), Some("Word8"@)]
    } else if id == 13 {
        seq![None, Some("S"@), Some("SWord7"@)]
    } else if id == 14 {
        seq![None, Some("L"@), Some("R"@), Some("Rlist"@)]
    } else if id == 15 {
        seq![None, Some("L"@), Some("Rb"@), Some("Rlist"@)]
    } else if id == 16 {
        seq![None, Some("Cond"@), Some("SOffset8"@)]
    } else if id == 17 {
        seq![None, Some("Value8"@)]
    } else if id == 18 {
        seq![None, Some("Offset11"@)]
    } else if id == 19 {
        seq![None, Some("H"@), Some("Offset"@)]
    } else {
        Seq::empty()
    }
}

/// The field of constant bits that tells a format from the others. It is well
/// formed where the constant lies under the mask.
pub fn constant(mask: u16, value: u16) -> (seg: OperationSeg)
    ensures
        seg.wf() <==> value & !mask == 0,
        seg.mask == mask,
        seg.seg_type == SegType::Main,
        seg.name is None,
        seg.values is Some && seg.values->0@ == seq![value],
{
    let seg = OperationSeg { name: None, mask, seg_type: SegType::Main, values: Some(vec![value]) };
    assert(seg.values->0@[0] == value);
    seg
}

/// A field that takes every value that fits. It is well formed unless its role
/// is `Main`.
pub fn field(name: &str, mask: u16, role: SegType) -> (seg: OperationSeg)
    ensures
        seg.wf() <==> role != SegType::Main,
        seg.mask == mask,
        seg.seg_type == role,
        seg.name is Some && seg.name->0@ == name@,
        seg.values is None,
{
    OperationSeg { name: Some(name.to_owned()), mask, seg_type: role, values: None }
}

/// A field that takes only the listed bit patterns.
pub fn choice(name: &str, mask: u16, role: SegType, listed: Vec<u16>) -> (seg: OperationSeg)
    ensures
        seg.mask == mask,
        seg.seg_type == role,
        seg.name is Some && seg.name->0@ == name@,
        seg.values == Some(listed),
{
    OperationSeg { name: Some(name.to_owned()), mask, seg_type: role, values: Some(listed) }
}

/// The bits that each field of a format occupies, in the order of the fields.
pub open spec fn masks_of(format: &Format) -> Seq<u16> {
    Seq::new(format.segments@.len(), |i: int| format.segments@[i].mask)
}

/// What each field of a format is called, in the order of the fields.
pub open spec fn names_of(format: &Format) -> Seq<Option<Seq<char>>> {
    Seq::new(
        format.segments@.len(),
        |i: int|
            match format.segments@[i].name {
                Some(name) => Some(name@),
                None => None,
            },
    )
}

/// The legal bit patterns of each field of a format, in the order of the
/// fields.
pub open spec fn lists_of(format: &Format) -> Seq<Option<Seq<u16>>> {
    Seq::new(
        format.segments@.len(),
        |i: int|
            match format.segments@[i].values {
                Some(listed) => Some(listed@),
                None => None,
            },
    )
}

/// What every builder below promises of its format: it is well formed and has
/// the id; it takes one word unless it is the long branch; distances are
/// counted in halfwords from four bytes behind the instruction; its fields occupy
/// the bits that [`default_masks`] lists, all sixteen between them, and have
/// the roles that [`default_roles`] lists; and they take the bit patterns that
/// [`default_lists`] lists, the first of them the constant of the format; and
/// the format and its fields are called as [`default_title`] and
/// [`default_names`] say.
pub open spec fn is_default_format(format: &Format, id: int) -> bool {
    &&& format.wf()
    &&& format.id == id
    &&& format.long == (id == 19)
    &&& format.pc_bias == 4
    &&& format.shift == 1
    &&& format.roles() == default_roles(id)
    &&& masks_of(format) == default_masks(id)
    &&& format.covered() == 0xFFFF
    &&& format.segments@[0].seg_type is Main
    &&& lists_of(format) == default_lists(id)
    &&& format.name@ == default_title(id)
    &&& names_of(format) == default_names(id)
}

/// Format 1, "move shifted register". Shifts a register by a constant: `LSL`, `LSR`, `ASR`.
pub fn move_shifted_register() -> (format: Format)
    ensures
        is_default_format(&format, 1),
{
    assert(0x0000u16 & !0xE000u16 == 0 && 0x0000u16 & !0x1800u16 == 0 && 0x0800u16 & !0x1800u16 == 0 && 0x1000u16 & !0x1800u16 == 0 && 0xE000u16 & 0x1800u16 == 0 && 0xE000u16 & 0x07C0u16 == 0 && 0xE000u16 & 0x0038u16 == 0 && 0xE000u16 & 0x0007u16 == 0 && 0x1800u16 & 0x07C0u16 == 0 && 0x1800u16 & 0x0038u16 == 0 && 0x1800u16 & 0x0007u16 == 0 && 0x07C0u16 & 0x0038u16 == 0 && 0x07C0u16 & 0x0007u16 == 0 && 0x0038u16 & 0x0007u16 == 0 && (((((0u16 | 0xE000u16) | 0x1800u16) | 0x07C0u16) | 0x0038u16) | 0x0007u16) == 0xFFFFu16) by (bit_vector);
    let format = Format {
        id: 1,
        name: "move shifted register".to_owned(),
        segments: vec![
            constant(0xE000, 0x0000),
            choice("Op", 0x1800, SegType::Op, vec![0x0000, 0x0800, 0x1000]),
            field("Offset5", 0x07C0, SegType::Immediate),
            field("Rs", 0x0038, SegType::Source),
            field("Rd", 0x0007, SegType::Destination),
        ],
        long: false,
        pc_bias: 4,
        shift: 1,
    };
    proof {
        reveal_with_fuel(Format::roles_upto, 8);
        assert(format.roles() =~= default_roles(1));
        assert(masks_of(&format) =~= default_masks(1));
        assert(lists_of(&format) =~~= default_lists(1));
        assert(names_of(&format) =~~= default_names(1));
        reveal_with_fuel(Format::covered_upto, 8);
        assert(format.covered() == 0xFFFF);
    }
    format
}

/// Format 2, "add/subtract". Adds or subtracts a register or a three-bit constant.
pub fn add_subtract() -> (format: Format)
    ensures
        is_default_format(&format, 2),
{
    assert(0x1800u16 & !0xF800u16 == 0 && 0xF800u16 & 0x0400u16 == 0 && 0xF800u16 & 0x0200u16 == 0 && 0xF800u16 & 0x01C0u16 == 0 && 0xF800u16 & 0x0038u16 == 0 && 0xF800u16 & 0x0007u16 == 0 && 0x0400u16 & 0x0200u16 == 0 && 0x0400u16 & 0x01C0u16 == 0 && 0x0400u16 & 0x0038u16 == 0 && 0x0400u16 & 0x0007u16 == 0 && 0x0200u16 & 0x01C0u16 == 0 && 0x0200u16 & 0x0038u16 == 0 && 0x0200u16 & 0x0007u16 == 0 && 0x01C0u16 & 0x0038u16 == 0 && 0x01C0u16 & 0x0007u16 == 0 && 0x0038u16 & 0x0007u16 == 0 && ((((((0u16 | 0xF800u16) | 0x0400u16) | 0x0200u16) | 0x01C0u16) | 0x0038u16) | 0x0007u16) == 0xFFFFu16) by (bit_vector);
    let format = Format {
        id: 2,
        name: "add/subtract".to_owned(),
        segments: vec![
            constant(0xF800, 0x1800),
            field("I", 0x0400, SegType::Flag),
            field("Op", 0x0200, SegType::Op),
            field("Rn/Offset3", 0x01C0, SegType::Immediate),
            field("Rs", 0x0038, SegType::Source),
            field("Rd", 0x0007, SegType::Destination),
        ],
        long: false,
        pc_bias: 4,
        shift: 1,
    };
    proof {
        reveal_with_fuel(Format::roles_upto, 8);
        assert(format.roles() =~= default_roles(2));
        assert(masks_of(&format) =~= default_masks(2));
        assert(lists_of(&format) =~~= default_lists(2));
        assert(names_of(&format) =~~= default_names(2));
        reveal_with_fuel(Format::covered_upto, 8);
        assert(format.covered() == 0xFFFF);
    }
    format
}

/// Format 3, "move/compare/add/subtract immediate". Operates on a register and an eight-bit constant.
pub fn move_compare_add_subtract_immediate() -> (format: Format)
    ensures
        is_default_format(&format, 3),
{
    assert(0x2000u16 & !0xE000u16 == 0 && 0xE000u16 & 0x1800u16 == 0 && 0xE000u16 & 0x0700u16 == 0 && 0xE000u16 & 0x00FFu16 == 0 && 0x1800u16 & 0x0700u16 == 0 && 0x1800u16 & 0x00FFu16 == 0 && 0x0700u16 & 0x00FFu16 == 0 && ((((0u16 | 0xE000u16) | 0x1800u16) | 0x0700u16) | 0x00FFu16) == 0xFFFFu16) by (bit_vector);
    let format = Format {
        id: 3,
        name: "move/compare/add/subtract immediate".to_owned(),
        segments: vec![
            constant(0xE000, 0x2000),
            field("Op", 0x1800, SegType::Op),
            field("Rd", 0x0700, SegType::Destination),
            field("Offset8", 0x00FF, SegType::Immediate),
        ],
        long: false,
        pc_bias: 4,
        shift: 1,
    };
    proof {
        reveal_with_fuel(Format::roles_upto, 8);
        assert(format.roles() =~= default_roles(3));
        assert(masks_of(&format) =~= default_masks(3));
        assert(lists_of(&format) =~~= default_lists(3));
        assert(names_of(&format) =~~= default_names(3));
        reveal_with_fuel(Format::covered_upto, 8);
        assert(format.covered() == 0xFFFF);
    }
    format
}

/// Format 4, "ALU operations". The two-register arithmetic and logic operations.
pub fn alu_operations() -> (format: Format)
    ensures
        is_default_format(&format, 4),
{
    assert(0x4000u16 & !0xFC00u16 == 0 && 0xFC00u16 & 0x03C0u16 == 0 && 0xFC00u16 & 0x0038u16 == 0 && 0xFC00u16 & 0x0007u16 == 0 && 0x03C0u16 & 0x0038u16 == 0 && 0x03C0u16 & 0x0007u16 == 0 && 0x0038u16 & 0x0007u16 == 0 && ((((0u16 | 0xFC00u16) | 0x03C0u16) | 0x0038u16) | 0x0007u16) == 0xFFFFu16) by (bit_vector);
    let format = Format {
        id: 4,
        name: "ALU operations".to_owned(),
        segments: vec![
            constant(0xFC00, 0x4000),
            field("Op", 0x03C0, SegType::Op),
            field("Rs", 0x0038, SegType::Source),
            field("Rd", 0x0007, SegType::Destination),
        ],
        long: false,
        pc_bias: 4,
        shift: 1,
    };
    proof {
        reveal_with_fuel(Format::roles_upto, 8);
        assert(format.roles() =~= default_roles(4));
        assert(masks_of(&format) =~= default_masks(4));
        assert(lists_of(&format) =~~= default_lists(4));
        assert(names_of(&format) =~~= default_names(4));
        reveal_with_fuel(Format::covered_upto, 8);
        assert(format.covered() == 0xFFFF);
    }
    format
}

/// Format 5, "hi register operations/branch exchange". Operations that reach the high registers, and `BX`.
pub fn hi_register_operations() -> (format: Format)
    ensures
        is_default_format(&format, 5),
{
    assert(0x4400u16 & !0xFC00u16 == 0 && 0xFC00u16 & 0x0300u16 == 0 && 0xFC00u16 & 0x0080u16 == 0 && 0xFC00u16 & 0x0040u16 == 0 && 0xFC00u16 & 0x0038u16 == 0 && 0xFC00u16 & 0x0007u16 == 0 && 0x0300u16 & 0x0080u16 == 0 && 0x0300u16 & 0x0040u16 == 0 && 0x0300u16 & 0x0038u16 == 0 && 0x0300u16 & 0x0007u16 == 0 && 0x0080u16 & 0x0040u16 == 0 && 0x0080u16 & 0x0038u16 == 0 && 0x0080u16 & 0x0007u16 == 0 && 0x0040u16 & 0x0038u16 == 0 && 0x0040u16 & 0x0007u16 == 0 && 0x0038u16 & 0x0007u16 == 0 && ((((((0u16 | 0xFC00u16) | 0x0300u16) | 0x0080u16) | 0x0040u16) | 0x0038u16) | 0x0007u16) == 0xFFFFu16) by (bit_vector);
    let format = Format {
        id: 5,
        name: "hi register operations/branch exchange".to_owned(),
        segments: vec![
            constant(0xFC00, 0x4400),
            field("Op", 0x0300, SegType::Op),
            field("H1", 0x0080, SegType::Flag),
            field("H2", 0x0040, SegType::Flag),
            field("Rs/Hs", 0x0038, SegType::Source),
            field("Rd/Hd", 0x0007, SegType::Destination),
        ],
        long: false,
        pc_bias: 4,
        shift: 1,
    };
    proof {
        reveal_with_fuel(Format::roles_upto, 8);
        assert(format.roles() =~= default_roles(5));
        assert(masks_of(&format) =~= default_masks(5));
        assert(lists_of(&format) =~~= default_lists(5));
        assert(names_of(&format) =~~= default_names(5));
        reveal_with_fuel(Format::covered_upto, 8);
        assert(format.covered() == 0xFFFF);
    }
    format
}

/// Format 6, "PC-relative load". Loads a word from an address relative to the program counter.
pub fn pc_relative_load() -> (format: Format)
    ensures
        is_default_format(&format, 6),
{
    assert(0x4800u16 & !0xF800u16 == 0 && 0xF800u16 & 0x0700u16 == 0 && 0xF800u16 & 0x00FFu16 == 0 && 0x0700u16 & 0x00FFu16 == 0 && (((0u16 | 0xF800u16) | 0x0700u16) | 0x00FFu16) == 0xFFFFu16) by (bit_vector);
    let format = Format {
        id: 6,
        name: "PC-relative load".to_owned(),
        segments: vec![
            constant(0xF800, 0x4800),
            field("Rd", 0x0700, SegType::Destination),
            field("Word8", 0x00FF, SegType::Immediate),
        ],
        long: false,
        pc_bias: 4,
        shift: 1,
    };
    proof {
        reveal_with_fuel(Format::roles_upto, 8);
        assert(format.roles() =~= default_roles(6));
        assert(masks_of(&format) =~= default_masks(6));
        assert(lists_of(&format) =~~= default_lists(6));
        assert(names_of(&format) =~~= default_names(6));
        reveal_with_fuel(Format::covered_upto, 8);
        assert(format.covered() == 0xFFFF);
    }
    format
}

/// Format 7, "load/store with register offset". Loads or stores a word or a byte at a base plus a register.
pub fn load_store_register_offset() -> (format: Format)
    ensures
        is_default_format(&format, 7),
{
    assert(0x5000u16 & !0xF200u16 == 0 && 0xF200u16 & 0x0800u16 == 0 && 0xF200u16 & 0x0400u16 == 0 && 0xF200u16 & 0x01C0u16 == 0 && 0xF200u16 & 0x0038u16 == 0 && 0xF200u16 & 0x0007u16 == 0 && 0x0800u16 & 0x0400u16 == 0 && 0x0800u16 & 0x01C0u16 == 0 && 0x0800u16 & 0x0038u16 == 0 && 0x0800u16 & 0x0007u16 == 0 && 0x0400u16 & 0x01C0u16 == 0 && 0x0400u16 & 0x0038u16 == 0 && 0x0400u16 & 0x0007u16 == 0 && 0x01C0u16 & 0x0038u16 == 0 && 0x01C0u16 & 0x0007u16 == 0 && 0x0038u16 & 0x0007u16 == 0 && ((((((0u16 | 0xF200u16) | 0x0800u16) | 0x0400u16) | 0x01C0u16) | 0x0038u16) | 0x0007u16) == 0xFFFFu16) by (bit_vector);
    let format = Format {
        id: 7,
        name: "load/store with register offset".to_owned(),
        segments: vec![
            constant(0xF200, 0x5000),
            field("L", 0x0800, SegType::Flag),
            field("B", 0x0400, SegType::Flag),
            field("Ro", 0x01C0, SegType::Offset),
            field("Rb", 0x0038, SegType::Source),
            field("Rd", 0x0007, SegType::Destination),
        ],
        long: false,
        pc_bias: 4,
        shift: 1,
    };
    proof {
        reveal_with_fuel(Format::roles_upto, 8);
        assert(format.roles() =~= default_roles(7));
        assert(masks_of(&format) =~= default_masks(7));
        assert(lists_of(&format) =~~= default_lists(7));
        assert(names_of(&format) =~~= default_names(7));
        reveal_with_fuel(Format::covered_upto, 8);
        assert(format.covered() == 0xFFFF);
    }
    format
}

/// Format 8, "load/store sign-extended byte/halfword". Loads or stores a halfword, or loads a byte or halfword with its sign.
pub fn load_store_sign_extended() -> (format: Format)
    ensures
        is_default_format(&format, 8),
{
    assert(0x5200u16 & !0xF200u16 == 0 && 0xF200u16 & 0x0800u16 == 0 && 0xF200u16 & 0x0400u16 == 0 && 0xF200u16 & 0x01C0u16 == 0 && 0xF200u16 & 0x0038u16 == 0 && 0xF200u16 & 0x0007u16 == 0 && 0x0800u16 & 0x0400u16 == 0 && 0x0800u16 & 0x01C0u16 == 0 && 0x0800u16 & 0x0038u16 == 0 && 0x0800u16 & 0x0007u16 == 0 && 0x0400u16 & 0x01C0u16 == 0 && 0x0400u16 & 0x0038u16 == 0 && 0x0400u16 & 0x0007u16 == 0 && 0x01C0u16 & 0x0038u16 == 0 && 0x01C0u16 & 0x0007u16 == 0 && 0x0038u16 & 0x0007u16 == 0 && ((((((0u16 | 0xF200u16) | 0x0800u16) | 0x0400u16) | 0x01C0u16) | 0x0038u16) | 0x0007u16) == 0xFFFFu16) by (bit_vector);
    let format = Format {
        id: 8,
        name: "load/store sign-extended byte/halfword".to_owned(),
        segments: vec![
            constant(0xF200, 0x5200),
            field("H", 0x0800, SegType::Flag),
            field("S", 0x0400, SegType::Flag),
            field("Ro", 0x01C0, SegType::Offset),
            field("Rb", 0x0038, SegType::Source),
            field("Rd", 0x0007, SegType::Destination),
        ],
        long: false,
        pc_bias: 4,
        shift: 1,
    };
    proof {
        reveal_with_fuel(Format::roles_upto, 8);
        assert(format.roles() =~= default_roles(8));
        assert(masks_of(&format) =~= default_masks(8));
        assert(lists_of(&format) =~~= default_lists(8));
        assert(names_of(&format) =~~= default_names(8));
        reveal_with_fuel(Format::covered_upto, 8);
        assert(format.covered() == 0xFFFF);
    }
    format
}

/// Format 9, "load/store with immediate offset". Loads or stores a word or a byte at a base plus a constant.
pub fn load_store_immediate_offset() -> (format: Format)
    ensures
        is_default_format(&format, 9),
{
    assert(0x6000u16 & !0xE000u16 == 0 && 0xE000u16 & 0x1000u16 == 0 && 0xE000u16 & 0x0800u16 == 0 && 0xE000u16 & 0x07C0u16 == 0 && 0xE000u16 & 0x0038u16 == 0 && 0xE000u16 & 0x0007u16 == 0 && 0x1000u16 & 0x0800u16 == 0 && 0x1000u16 & 0x07C0u16 == 0 && 0x1000u16 & 0x0038u16 == 0 && 0x1000u16 & 0x0007u16 == 0 && 0x0800u16 & 0x07C0u16 == 0 && 0x0800u16 & 0x0038u16 == 0 && 0x0800u16 & 0x0007u16 == 0 && 0x07C0u16 & 0x0038u16 == 0 && 0x07C0u16 & 0x0007u16 == 0 && 0x0038u16 & 0x0007u16 == 0 && ((((((0u16 | 0xE000u16) | 0x1000u16) | 0x0800u16) | 0x07C0u16) | 0x0038u16) | 0x0007u16) == 0xFFFFu16) by (bit_vector);
    let format = Format {
        id: 9,
        name: "load/store with immediate offset".to_owned(),
        segments: vec![
            constant(0xE000, 0x6000),
            field("B", 0x1000, SegType::Flag),
            field("L", 0x0800, SegType::Flag),
            field("Offset5", 0x07C0, SegType::Offset),
            field("Rb", 0x0038, SegType::Source),
            field("Rd", 0x0007, SegType::Destination),
        ],
        long: false,
        pc_bias: 4,
        shift: 1,
    };
    proof {
        reveal_with_fuel(Format::roles_upto, 8);
        assert(format.roles() =~= default_roles(9));
        assert(masks_of(&format) =~= default_masks(9));
        assert(lists_of(&format) =~~= default_lists(9));
        assert(names_of(&format) =~~= default_names(9));
        reveal_with_fuel(Format::covered_upto, 8);
        assert(format.covered() == 0xFFFF);
    }
    format
}

/// Format 10, "load/store halfword". Loads or stores a halfword at a base plus a constant.
pub fn load_store_halfword() -> (format: Format)
    ensures
        is_default_format(&format, 10),
{
    assert(0x8000u16 & !0xF000u16 == 0 && 0xF000u16 & 0x0800u16 == 0 && 0xF000u16 & 0x07C0u16 == 0 && 0xF000u16 & 0x0038u16 == 0 && 0xF000u16 & 0x0007u16 == 0 && 0x0800u16 & 0x07C0u16 == 0 && 0x0800u16 & 0x0038u16 == 0 && 0x0800u16 & 0x0007u16 == 0 && 0x07C0u16 & 0x0038u16 == 0 && 0x07C0u16 & 0x0007u16 == 0 && 0x0038u16 & 0x0007u16 == 0 && (((((0u16 | 0xF000u16) | 0x0800u16) | 0x07C0u16) | 0x0038u16) | 0x0007u16) == 0xFFFFu16) by (bit_vector);
    let format = Format {
        id: 10,
        name: "load/store halfword".to_owned(),
        segments: vec![
            constant(0xF000, 0x8000),
            field("L", 0x0800, SegType::Flag),
            field("Offset5", 0x07C0, SegType::Offset),
            field("Rb", 0x0038, SegType::Source),
            field("Rd", 0x0007, SegType::Destination),
        ],
        long: false,
        pc_bias: 4,
        shift: 1,
    };
    proof {
        reveal_with_fuel(Format::roles_upto, 8);
        assert(format.roles() =~= default_roles(10));
        assert(masks_of(&format) =~= default_masks(10));
        assert(lists_of(&format) =~~= default_lists(10));
        assert(names_of(&format) =~~= default_names(10));
        reveal_with_fuel(Format::covered_upto, 8);
        assert(format.covered() == 0xFFFF);
    }
    format
}

/// Format 11, "SP-relative load/store". Loads or stores a word at the stack pointer plus a constant.
pub fn sp_relative_load_store() -> (format: Format)
    ensures
        is_default_format(&format, 11),
{
    assert(0x9000u16 & !0xF000u16 == 0 && 0xF000u16 & 0x0800u16 == 0 && 0xF000u16 & 0x0700u16 == 0 && 0xF000u16 & 0x00FFu16 == 0 && 0x0800u16 & 0x0700u16 == 0 && 0x0800u16 & 0x00FFu16 == 0 && 0x0700u16 & 0x00FFu16 == 0 && ((((0u16 | 0xF000u16) | 0x0800u16) | 0x0700u16) | 0x00FFu16) == 0xFFFFu16) by (bit_vector);
    let format = Format {
        id: 11,
        name: "SP-relative load/store".to_owned(),
        segments: vec![
            constant(0xF000, 0x9000),
            field("L", 0x0800, SegType::Flag),
            field("Rd", 0x0700, SegType::Destination),
            field("Word8", 0x00FF, SegType::Offset),
        ],
        long: false,
        pc_bias: 4,
        shift: 1,
    };
    proof {
        reveal_with_fuel(Format::roles_upto, 8);
        assert(format.roles() =~= default_roles(11));
        assert(masks_of(&format) =~= default_masks(11));
        assert(lists_of(&format) =~~= default_lists(11));
        assert(names_of(&format) =~~= default_names(11));
        reveal_with_fuel(Format::covered_upto, 8);
        assert(format.covered() == 0xFFFF);
    }
    format
}

/// Format 12, "load address". Adds a constant to the program counter or the stack pointer.
pub fn load_address() -> (format: Format)
    ensures
        is_default_format(&format, 12),
{
    assert(0xA000u16 & !0xF000u16 == 0 && 0xF000u16 & 0x0800u16 == 0 && 0xF000u16 & 0x0700u16 == 0 && 0xF000u16 & 0x00FFu16 == 0 && 0x0800u16 & 0x0700u16 == 0 && 0x0800u16 & 0x00FFu16 == 0 && 0x0700u16 & 0x00FFu16 == 0 && ((((0u16 | 0xF000u16) | 0x0800u16) | 0x0700u16) | 0x00FFu16) == 0xFFFFu16) by (bit_vector);
    let format = Format {
        id: 12,
        name: "load address".to_owned(),
        segments: vec![
            constant(0xF000, 0xA000),
            field("SP", 0x0800, SegType::Flag),
            field("Rd", 0x0700, SegType::Destination),
            field("Word8", 0x00FF, SegType::Immediate),
        ],
        long: false,
        pc_bias: 4,
        shift: 1,
    };
    proof {
        reveal_with_fuel(Format::roles_upto, 8);
        assert(format.roles() =~= default_roles(12));
        assert(masks_of(&format) =~= default_masks(12));
        assert(lists_of(&format) =~~= default_lists(12));
        assert(names_of(&format) =~~= default_names(12));
        reveal_with_fuel(Format::covered_upto, 8);
        assert(format.covered() == 0xFFFF);
    }
    format
}

/// Format 13, "add offset to stack pointer". Moves the stack pointer by a constant.
pub fn add_offset_to_stack_pointer() -> (format: Format)
    ensures
        is_default_format(&format, 13),
{
    assert(0xB000u16 & !0xFF00u16 == 0 && 0xFF00u16 & 0x0080u16 == 0 && 0xFF00u16 & 0x007Fu16 == 0 && 0x0080u16 & 0x007Fu16 == 0 && (((0u16 | 0xFF00u16) | 0x0080u16) | 0x007Fu16) == 0xFFFFu16) by (bit_vector);
    let format = Format {
        id: 13,
        name: "add offset to stack pointer".to_owned(),
        segments: vec![
            constant(0xFF00, 0xB000),
            field("S", 0x0080, SegType::Flag),
            field("SWord7", 0x007F, SegType::Immediate),
        ],
        long: false,
        pc_bias: 4,
        shift: 1,
    };
    proof {
        reveal_with_fuel(Format::roles_upto, 8);
        assert(format.roles() =~= default_roles(13));
        assert(masks_of(&format) =~= default_masks(13));
        assert(lists_of(&format) =~~= default_lists(13));
        assert(names_of(&format) =~~= default_names(13));
        reveal_with_fuel(Format::covered_upto, 8);
        assert(format.covered() == 0xFFFF);
    }
    format
}

/// Format 14, "push/pop registers". Pushes registers on the stack or pops them off it.
pub fn push_pop_registers() -> (format: Format)
    ensures
        is_default_format(&format, 14),
{
    assert(0xB400u16 & !0xF600u16 == 0 && 0xF600u16 & 0x0800u16 == 0 && 0xF600u16 & 0x0100u16 == 0 && 0xF600u16 & 0x00FFu16 == 0 && 0x0800u16 & 0x0100u16 == 0 && 0x0800u16 & 0x00FFu16 == 0 && 0x0100u16 & 0x00FFu16 == 0 && ((((0u16 | 0xF600u16) | 0x0800u16) | 0x0100u16) | 0x00FFu16) == 0xFFFFu16) by (bit_vector);
    let format = Format {
        id: 14,
        name: "push/pop registers".to_owned(),
        segments: vec![
            constant(0xF600, 0xB400),
            field("L", 0x0800, SegType::Flag),
            field("R", 0x0100, SegType::Flag),
            field("Rlist", 0x00FF, SegType::Immediate),
        ],
        long: false,
        pc_bias: 4,
        shift: 1,
    };
    proof {
        reveal_with_fuel(Format::roles_upto, 8);
        assert(format.roles() =~= default_roles(14));
        assert(masks_of(&format) =~= default_masks(14));
        assert(lists_of(&format) =~~= default_lists(14));
        assert(names_of(&format) =~~= default_names(14));
        reveal_with_fuel(Format::covered_upto, 8);
        assert(format.covered() == 0xFFFF);
    }
    format
}

/// Format 15, "multiple load/store". Loads or stores several registers at a base.
pub fn multiple_load_store() -> (format: Format)
    ensures
        is_default_format(&format, 15),
{
    assert(0xC000u16 & !0xF000u16 == 0 && 0xF000u16 & 0x0800u16 == 0 && 0xF000u16 & 0x0700u16 == 0 && 0xF000u16 & 0x00FFu16 == 0 && 0x0800u16 & 0x0700u16 == 0 && 0x0800u16 & 0x00FFu16 == 0 && 0x0700u16 & 0x00FFu16 == 0 && ((((0u16 | 0xF000u16) | 0x0800u16) | 0x0700u16) | 0x00FFu16) == 0xFFFFu16) by (bit_vector);
    let format = Format {
        id: 15,
        name: "multiple load/store".to_owned(),
        segments: vec![
            constant(0xF000, 0xC000),
            field("L", 0x0800, SegType::Flag),
            field("Rb", 0x0700, SegType::Source),
            field("Rlist", 0x00FF, SegType::Immediate),
        ],
        long: false,
        pc_bias: 4,
        shift: 1,
    };
    proof {
        reveal_with_fuel(Format::roles_upto, 8);
        assert(format.roles() =~= default_roles(15));
        assert(masks_of(&format) =~= default_masks(15));
        assert(lists_of(&format) =~~= default_lists(15));
        assert(names_of(&format) =~~= default_names(15));
        reveal_with_fuel(Format::covered_upto, 8);
        assert(format.covered() == 0xFFFF);
    }
    format
}

/// Format 16, "conditional branch". Branches where the condition holds. Fourteen conditions are legal.
pub fn conditional_branch() -> (format: Format)
    ensures
        is_default_format(&format, 16),
{
    assert(0xD000u16 & !0xF000u16 == 0 && 0x0000u16 & !0x0F00u16 == 0 && 0x0100u16 & !0x0F00u16 == 0 && 0x0200u16 & !0x0F00u16 == 0 && 0x0300u16 & !0x0F00u16 == 0 && 0x0400u16 & !0x0F00u16 == 0 && 0x0500u16 & !0x0F00u16 == 0 && 0x0600u16 & !0x0F00u16 == 0 && 0x0700u16 & !0x0F00u16 == 0 && 0x0800u16 & !0x0F00u16 == 0 && 0x0900u16 & !0x0F00u16 == 0 && 0x0A00u16 & !0x0F00u16 == 0 && 0x0B00u16 & !0x0F00u16 == 0 && 0x0C00u16 & !0x0F00u16 == 0 && 0x0D00u16 & !0x0F00u16 == 0 && 0xF000u16 & 0x0F00u16 == 0 && 0xF000u16 & 0x00FFu16 == 0 && 0x0F00u16 & 0x00FFu16 == 0 && (((0u16 | 0xF000u16) | 0x0F00u16) | 0x00FFu16) == 0xFFFFu16) by (bit_vector);
    let format = Format {
        id: 16,
        name: "conditional branch".to_owned(),
        segments: vec![
            constant(0xF000, 0xD000),
            choice("Cond", 0x0F00, SegType::Condition, vec![0x0000, 0x0100, 0x0200, 0x0300, 0x0400, 0x0500, 0x0600, 0x0700, 0x0800, 0x0900, 0x0A00, 0x0B00, 0x0C00, 0x0D00]),
            field("SOffset8", 0x00FF, SegType::Offset),
        ],
        long: false,
        pc_bias: 4,
        shift: 1,
    };
    proof {
        reveal_with_fuel(Format::roles_upto, 8);
        assert(format.roles() =~= default_roles(16));
        assert(masks_of(&format) =~= default_masks(16));
        assert(lists_of(&format) =~~= default_lists(16));
        assert(names_of(&format) =~~= default_names(16));
        reveal_with_fuel(Format::covered_upto, 8);
        assert(format.covered() == 0xFFFF);
    }
    format
}

/// Format 17, "software interrupt". Raises a software interrupt with an eight-bit comment.
pub fn software_interrupt() -> (format: Format)
    ensures
        is_default_format(&format, 17),
{
    assert(0xDF00u16 & !0xFF00u16 == 0 && 0xFF00u16 & 0x00FFu16 == 0 && ((0u16 | 0xFF00u16) | 0x00FFu16) == 0xFFFFu16) by (bit_vector);
    let format = Format {
        id: 17,
        name: "software interrupt".to_owned(),
        segments: vec![
            constant(0xFF00, 0xDF00),
            field("Value8", 0x00FF, SegType::Immediate),
        ],
        long: false,
        pc_bias: 4,
        shift: 1,
    };
    proof {
        reveal_with_fuel(Format::roles_upto, 8);
        assert(format.roles() =~= default_roles(17));
        assert(masks_of(&format) =~= default_masks(17));
        assert(lists_of(&format) =~~= default_lists(17));
        assert(names_of(&format) =~~= default_names(17));
        reveal_with_fuel(Format::covered_upto, 8);
        assert(format.covered() == 0xFFFF);
    }
    format
}

/// Format 18, "unconditional branch". Branches always.
pub fn unconditional_branch() -> (format: Format)
    ensures
        is_default_format(&format, 18),
{
    assert(0xE000u16 & !0xF800u16 == 0 && 0xF800u16 & 0x07FFu16 == 0 && ((0u16 | 0xF800u16) | 0x07FFu16) == 0xFFFFu16) by (bit_vector);
    let format = Format {
        id: 18,
        name: "unconditional branch".to_owned(),
        segments: vec![
            constant(0xF800, 0xE000),
            field("Offset11", 0x07FF, SegType::Offset),
        ],
        long: false,
        pc_bias: 4,
        shift: 1,
    };
    proof {
        reveal_with_fuel(Format::roles_upto, 8);
        assert(format.roles() =~= default_roles(18));
        assert(masks_of(&format) =~= default_masks(18));
        assert(lists_of(&format) =~~= default_lists(18));
        assert(names_of(&format) =~~= default_names(18));
        reveal_with_fuel(Format::covered_upto, 8);
        assert(format.covered() == 0xFFFF);
    }
    format
}

/// Format 19, "long branch with link". Branches to a subroutine. The distance takes two words.
pub fn long_branch_with_link() -> (format: Format)
    ensures
        is_default_format(&format, 19),
{
    assert(0xF000u16 & !0xF000u16 == 0 && 0xF000u16 & 0x0800u16 == 0 && 0xF000u16 & 0x07FFu16 == 0 && 0x0800u16 & 0x07FFu16 == 0 && (((0u16 | 0xF000u16) | 0x0800u16) | 0x07FFu16) == 0xFFFFu16) by (bit_vector);
    let format = Format {
        id: 19,
        name: "long branch with link".to_owned(),
        segments: vec![
            constant(0xF000, 0xF000),
            field("H", 0x0800, SegType::Flag),
            field("Offset", 0x07FF, SegType::Offset),
        ],
        long: true,
        pc_bias: 4,
        shift: 1,
    };
    proof {
        reveal_with_fuel(Format::roles_upto, 8);
        assert(format.roles() =~= default_roles(19));
        assert(masks_of(&format) =~= default_masks(19));
        assert(lists_of(&format) =~~= default_lists(19));
        assert(names_of(&format) =~~= default_names(19));
        reveal_with_fuel(Format::covered_upto, 8);
        assert(format.covered() == 0xFFFF);
    }
    format
}

} // verus!
