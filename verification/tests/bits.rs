use kgemu::definitions::bits::{
    from_field, mask_shift, mask_width, pack, to_field, two_pow, unpack,
};
use kgemu::definitions::processor::{FieldFault, Format, OperationSeg, ProcessorDefinition, SegType};
use kgemu::definitions::thumb_default::formats::{choice, constant, field};

fn sample_format() -> Format {
    Format {
        id: 1,
        name: "sample".to_string(),
        segments: vec![
            constant(0xE000, 0x2000),
            choice("Op", 0x1800, SegType::Op, vec![0x0000, 0x0800, 0x1000]),
            field("Rd", 0x0700, SegType::Destination),
            field("Offset8", 0x00FF, SegType::Immediate),
        ],
        long: false,
        pc_bias: 4,
        shift: 1,
    }
}

#[test]
fn mask_width_counts_the_bits() {
    assert_eq!(mask_width(0), 0);
    assert_eq!(mask_width(0x0700), 3);
    assert_eq!(mask_width(0x00FF), 8);
    assert_eq!(mask_width(0xF200), 5);
    assert_eq!(mask_width(0xFFFF), 16);
}

#[test]
fn pack_spreads_over_a_contiguous_mask() {
    assert_eq!(pack(5, 0x0700), 0x0500);
    assert_eq!(pack(1, 0x0038), 0x0008);
    assert_eq!(pack(0xAB, 0x00FF), 0x00AB);
    assert_eq!(pack(0, 0xFFFF), 0);
}

#[test]
fn pack_spreads_over_a_mask_with_a_gap() {
    assert_eq!(pack(0b10101, 0xF200), 0xA200);
    assert_eq!(pack(0b00001, 0xF200), 0x0200);
    assert_eq!(pack(0b11111, 0xF200), 0xF200);
}

#[test]
fn pack_drops_the_bits_that_do_not_fit() {
    assert_eq!(pack(0b1101, 0x0700), 0x0500);
}

#[test]
fn unpack_reads_what_pack_wrote() {
    for mask in [0x0700u16, 0x00FF, 0xF200, 0x07C0, 0xFFFF, 0x0001] {
        let width = mask_width(mask);
        for value in 0u32..(1u32 << width).min(512) {
            let word = pack(value as u16, mask);
            assert_eq!(word & !mask, 0);
            assert_eq!(unpack(word, mask), value as u16);
        }
    }
}

#[test]
fn unpack_ignores_the_bits_outside_the_mask() {
    assert_eq!(unpack(0x2105, 0x0700), 1);
    assert_eq!(unpack(0x2105, 0x00FF), 5);
    assert_eq!(unpack(0xFFFF, 0xF200), 0b11111);
}

#[test]
fn two_pow_gives_powers_of_two() {
    assert_eq!(two_pow(0), 1);
    assert_eq!(two_pow(8), 256);
    assert_eq!(two_pow(32), 0x1_0000_0000);
}

#[test]
fn to_field_takes_numbers_and_distances() {
    assert_eq!(to_field(5, 8, false), Some(5));
    assert_eq!(to_field(255, 8, false), Some(255));
    assert_eq!(to_field(256, 8, false), None);
    assert_eq!(to_field(-1, 8, false), Some(255));
    assert_eq!(to_field(-128, 8, false), Some(128));
    assert_eq!(to_field(-129, 8, false), None);
    assert_eq!(to_field(127, 8, true), Some(127));
    assert_eq!(to_field(128, 8, true), None);
    assert_eq!(to_field(-3, 11, true), Some(0x7FD));
}

#[test]
fn from_field_reads_a_signed_number() {
    assert_eq!(from_field(0x7FD, 11), -3);
    assert_eq!(from_field(127, 8), 127);
    assert_eq!(from_field(128, 8), -128);
    assert_eq!(from_field(0, 8), 0);
}

#[test]
fn encode_fields_packs_in_the_order_of_the_fields() {
    let format = sample_format();
    assert_eq!(format.count_operands(), 3);
    assert_eq!(format.encode_fields(&vec![0, 1, 5]), Ok(0x2105));
    assert_eq!(format.encode_fields(&vec![2, 7, 255]), Ok(0x37FF));
}

#[test]
fn encode_fields_reports_the_first_fault() {
    let format = sample_format();
    assert_eq!(format.encode_fields(&vec![0, 1]), Err(FieldFault::Count));
    assert_eq!(format.encode_fields(&vec![0, 8, 5]), Err(FieldFault::Overflow(1)));
    assert_eq!(format.encode_fields(&vec![0, 1, 256]), Err(FieldFault::Overflow(2)));
    assert_eq!(format.encode_fields(&vec![3, 1, 5]), Err(FieldFault::NotListed(0)));
    assert_eq!(format.encode_fields(&vec![3, 8, 5]), Err(FieldFault::NotListed(0)));
    assert_eq!(format.encode_fields(&vec![4, 1, 5]), Err(FieldFault::Overflow(0)));
}

#[test]
fn decode_reads_back_what_encode_fields_wrote() {
    let format = sample_format();
    assert_eq!(format.decode(0x2105), Some(vec![0, 1, 5]));
    for op in 0u16..3 {
        for rd in 0u16..8 {
            for offset in [0u16, 1, 77, 255] {
                let word = format.encode_fields(&vec![op, rd, offset]).unwrap();
                assert_eq!(format.decode(word), Some(vec![op, rd, offset]));
            }
        }
    }
}

#[test]
fn decode_refuses_a_word_of_another_format() {
    let format = sample_format();
    assert_eq!(format.decode(0x4105), None);
    assert_eq!(format.decode(0x3905), None);
}

#[test]
fn a_format_with_overlapping_fields_is_not_valid() {
    let mut format = sample_format();
    assert!(format.is_valid());
    format.segments.push(field("extra", 0x0080, SegType::Flag));
    assert!(!format.is_valid());
}

#[test]
fn a_format_that_drops_too_many_bits_is_not_valid() {
    let mut format = sample_format();
    format.shift = 31;
    assert!(format.is_valid());
    format.shift = 32;
    assert!(!format.is_valid());
}

#[test]
fn a_constant_outside_its_mask_is_not_valid() {
    let seg = OperationSeg {
        name: None,
        mask: 0xE000,
        seg_type: SegType::Main,
        values: Some(vec![0x2100]),
    };
    assert!(!seg.is_valid());
    let bare = OperationSeg { name: None, mask: 0xE000, seg_type: SegType::Main, values: None };
    assert!(!bare.is_valid());
    assert!(seg.permits(0x2100));
    assert!(!seg.permits(0x2000));
}

#[test]
fn every_default_format_is_valid() {
    let processor = ProcessorDefinition::default();
    assert!(processor.is_valid());
    assert_eq!(processor.formats().len(), 19);
    assert_eq!(processor.num_register, 16);
    assert_eq!(processor.register_size, 16);
    for (i, format) in processor.formats.iter().enumerate() {
        assert_eq!(format.id, i as i32 + 1);
        assert!(format.is_valid());
        assert_eq!(format.long, format.id == 19);
        let mut union: u16 = 0;
        for seg in &format.segments {
            assert_eq!(union & seg.mask, 0);
            union |= seg.mask;
        }
        assert_eq!(union, 0xFFFF);
    }
}

#[test]
fn formats_are_found_by_id() {
    let mut processor = ProcessorDefinition::default();
    assert_eq!(processor.find_format(1), Some(0));
    assert_eq!(processor.find_format(19), Some(18));
    assert_eq!(processor.find_format(0), None);
    assert_eq!(processor.find_format(20), None);
    assert_eq!(processor.format(3).unwrap().name, "move/compare/add/subtract immediate");
    assert!(processor.format(42).is_none());
    let copy = sample_format();
    processor.formats.push(copy);
    assert!(!processor.is_valid());
}

#[test]
fn seg_type_defaults_to_main() {
    assert_eq!(SegType::default(), SegType::Main);
}

#[test]
fn a_format_declares_the_bits_of_its_fields() {
    let format = sample_format();
    assert_eq!(format.coverage(), 0xFFFF);
    let mut partial = sample_format();
    partial.segments.pop();
    assert_eq!(partial.coverage(), 0xFF00);
    assert!(partial.is_valid());
    let word = partial.encode_fields(&vec![1, 7]).unwrap();
    assert_eq!(word, 0x2F00);
    assert_eq!(word & !partial.coverage(), 0);
    assert_eq!(kgemu::definitions::processor::WORD_SIZE, 16);
}

#[test]
fn a_field_knows_its_width_and_its_shift() {
    let seg = field("Rd", 0x0700, SegType::Destination);
    assert_eq!(seg.width(), 3);
    assert_eq!(seg.shift(), 8);
    assert_eq!(seg.pack(5), 0x0500);
    assert_eq!(seg.pack(5), 5 << seg.shift());
    assert_eq!(seg.unpack(0x2505), 5);
    assert_eq!(mask_shift(0x0001), 0);
    assert_eq!(mask_shift(0x8000), 15);
    assert_eq!(mask_shift(0xF200), 9);
    assert_eq!(mask_shift(0), 0);
    for mask in [0x0007u16, 0x0038, 0x01C0, 0x07FF, 0x00FF, 0x1800] {
        for value in 0u16..(1 << mask_width(mask)) {
            assert_eq!(pack(value, mask), value << mask_shift(mask));
            assert_eq!(unpack(value << mask_shift(mask), mask), value);
        }
    }
}
