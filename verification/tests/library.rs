use kgemu::add;
use kgemu::virtual_processor::VirtualProcessor;

#[test]
fn it_works() {
    let result = add(2, 2);
    assert_eq!(result, 4);
}

#[test]
fn add_reaches_the_largest_number() {
    assert_eq!(add(u64::MAX - 1, 1), u64::MAX);
    assert_eq!(add(0, 0), 0);
}

#[test]
fn set_rom_replaces_the_program() {
    let mut processor = VirtualProcessor::new("test".to_string(), 16, 16);
    assert!(processor.get_rom().is_empty());
    processor.set_rom(vec![0x21, 0x05]);
    assert_eq!(processor.get_rom(), &vec![0x21, 0x05]);
    processor.set_rom(vec![1, 2, 3]);
    assert_eq!(processor.get_rom(), &vec![1, 2, 3]);
    assert_eq!(processor.name, "test");
    assert_eq!(processor.num_registers, 16);
}
