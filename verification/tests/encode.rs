use support::encode_format::{
    build_config, build_port_table, encode, input_value_for_port, interleave_pixels, pack_size,
    EncodeError,
};
use support::manifest::{
    Action, CPUType, Metdata, NamedAction, PlatformPortMapping, PlatformSpecification, Port,
    PresetDefinition, ROMName, Screen, Size,
};
use support::mask::PixelIDMap;

fn input(action: Action, active_low: bool) -> Option<NamedAction> {
    Some(NamedAction { action, active_low, name: None })
}

fn platform_with(cpu: CPUType, screen: Screen, ports: Vec<Port>) -> PlatformSpecification {
    PlatformSpecification {
        device: PresetDefinition { cpu, screen },
        port_map: PlatformPortMapping { ports, inherits: None },
        metadata: Metdata {
            year: "198?".to_string(),
            name: "Game".to_string(),
            company: "Maker".to_string(),
        },
        rom: ROMName { rom: "game.bin".to_string(), melody: None, rom_owner: None },
    }
}

#[test]
fn input_values_carry_action_and_polarity() {
    let up = NamedAction { action: Action::JoyUp, active_low: false, name: None };
    assert_eq!(input_value_for_port(&up), 0);
    let custom = NamedAction { action: Action::Custom, active_low: true, name: None };
    assert_eq!(input_value_for_port(&custom), 0x80 | 29);
    let unused = NamedAction { action: Action::Unused, active_low: false, name: None };
    assert_eq!(input_value_for_port(&unused), 0x7F);
    let left = NamedAction {
        action: Action::LeftJoyUp,
        active_low: true,
        name: Some("x".to_string()),
    };
    assert_eq!(input_value_for_port(&left), 0x80 | 17);
    let power = NamedAction { action: Action::PowerOff, active_low: false, name: None };
    assert_eq!(input_value_for_port(&power), 27);
}

#[test]
fn size_is_packed_in_ten_bits_each() {
    assert_eq!(pack_size(100, 200), vec![0x64, 0x20, 0x03]);
    assert_eq!(pack_size(0x3ff, 0), vec![0xff, 0x03, 0x00]);
    assert_eq!(pack_size(0, 0x3ff), vec![0x00, 0xfc, 0x0f]);
    assert_eq!(pack_size(0x400, 0x401), vec![0x00, 0x04, 0x00]);
}

#[test]
fn port_table_starts_unmapped() {
    let table = build_port_table(&vec![]).unwrap();
    assert_eq!(table.len(), 35);
    assert_eq!(table, vec![0x7F; 35]);
}

#[test]
fn later_ports_replace_earlier_ones() {
    let ports = vec![
        Port::S { index: 1, bitmap: [input(Action::JoyUp, false), None, None, None] },
        Port::B { bit: input(Action::Start1, false) },
        Port::S { index: 1, bitmap: [None, input(Action::JoyDown, true), None, None] },
        Port::B { bit: None },
        Port::ACL { bit: input(Action::PowerOn, true) },
        Port::BA { bit: input(Action::Select, false) },
    ];
    let table = build_port_table(&ports).unwrap();
    assert_eq!(table[4..8], [0x7F, 0x81, 0x7F, 0x7F]);
    assert_eq!(table[32..], [0x7F, 12, 0x80 | 26]);
}

#[test]
fn config_block_is_laid_out_byte_by_byte() {
    let ports = vec![
        Port::S {
            index: 0,
            bitmap: [input(Action::JoyUp, false), None, input(Action::Button1, true), None],
        },
        Port::S {
            index: 7,
            bitmap: [None, None, None, input(Action::Service2, false)],
        },
        Port::B { bit: input(Action::Start1, false) },
        Port::BA { bit: input(Action::Select, true) },
        Port::ACL { bit: input(Action::PowerOn, false) },
    ];
    let platform =
        platform_with(CPUType::SM511, Screen::Single { width: 100, height: 200 }, ports);
    let config = build_config(&platform).unwrap();
    assert_eq!(config.len(), 0x100);
    assert_eq!(config[..8], [1, 1, 0, 0x64, 0x20, 0x03, 0, 0]);
    assert_eq!(config[8..12], [0, 0x7F, 0x84, 0x7F]);
    assert!(config[12..36].iter().all(|b| *b == 0x7F));
    assert_eq!(config[36..40], [0x7F, 0x7F, 0x7F, 16]);
    assert_eq!(config[40..43], [13, 0x80 | 12, 26]);
    assert!(config[43..].iter().all(|b| *b == 0));
}

#[test]
fn config_of_a_platform_without_ports_has_every_input_unmapped() {
    let platform = platform_with(CPUType::SM510, Screen::Single { width: 1, height: 1 }, vec![]);
    let config = build_config(&platform).unwrap();
    assert_eq!(config[8..43], [0x7F; 35]);
    assert!(config[43..].iter().all(|b| *b == 0));
    let unset = platform_with(
        CPUType::SM510,
        Screen::Single { width: 1, height: 1 },
        vec![Port::B { bit: None }, Port::BA { bit: None }, Port::ACL { bit: None }],
    );
    assert_eq!(build_config(&unset).unwrap()[8..43], [0x7F; 35]);
}

#[test]
fn config_names_processor_and_screens() {
    let size = Size { width: 3, height: 5 };
    let other = Size { width: 9, height: 9 };
    let vertical = platform_with(
        CPUType::KB1013VK12,
        Screen::DualVertical { top: size, bottom: other },
        vec![],
    );
    assert_eq!(build_config(&vertical).unwrap()[..6], [1, 8, 1, 3, 0x14, 0]);
    let horizontal = platform_with(
        CPUType::SM5a,
        Screen::DualHorizontal { left: size, right: other },
        vec![],
    );
    assert_eq!(build_config(&horizontal).unwrap()[..6], [1, 4, 2, 3, 0x14, 0]);
    let codes = [
        (CPUType::SM510, 0u8),
        (CPUType::SM511, 1),
        (CPUType::SM512, 2),
        (CPUType::SM530, 3),
        (CPUType::SM5a, 4),
        (CPUType::SM510Tiger, 5),
        (CPUType::SM511Tiger1Bit, 6),
        (CPUType::SM511Tiger2Bit, 7),
        (CPUType::KB1013VK12, 8),
    ];
    for (cpu, code) in codes {
        let platform = platform_with(cpu, Screen::Single { width: 1, height: 1 }, vec![]);
        assert_eq!(build_config(&platform).unwrap()[1], code);
    }
}

#[test]
fn port_index_above_seven_is_an_error() {
    let ports = vec![
        Port::S { index: 7, bitmap: [None, None, None, None] },
        Port::S { index: 9, bitmap: [None, None, None, None] },
        Port::S { index: 8, bitmap: [None, None, None, None] },
    ];
    assert_eq!(
        build_port_table(&ports).err(),
        Some(EncodeError::PortIndexOutOfBounds { index: 9 })
    );
    let platform = platform_with(CPUType::SM510, Screen::Single { width: 1, height: 1 }, ports);
    assert_eq!(
        build_config(&platform).err(),
        Some(EncodeError::PortIndexOutOfBounds { index: 9 })
    );
}

#[test]
fn pixel_stream_interleaves_and_drops_alpha() {
    let background = [1u8, 2, 3, 255, 4, 5, 6, 255];
    let mask = [11u8, 12, 13, 254, 14, 15, 16, 254];
    assert_eq!(
        interleave_pixels(&background, &mask),
        vec![1, 11, 2, 12, 3, 13, 4, 14, 5, 15, 6, 16]
    );
}

#[test]
fn pixel_stream_ends_with_the_shorter_buffer() {
    let background = [1u8, 2, 3, 255, 4, 5];
    let mask = [11u8, 12, 13, 254, 14];
    assert_eq!(interleave_pixels(&background, &mask), vec![1, 11, 2, 12, 3, 13, 4, 14]);
    assert_eq!(interleave_pixels(&[], &mask), Vec::<u8>::new());
}

#[test]
fn artifact_is_config_stream_table_and_rom() {
    let platform = platform_with(CPUType::SM510, Screen::Single { width: 2, height: 1 }, vec![]);
    let background = [1u8, 2, 3, 255, 4, 5, 6, 255];
    let mask = [0u8, 0, 0, 0, 14, 15, 16, 254];
    let map = PixelIDMap::from_cells(2, 1, vec![None, Some(0x2a)]).unwrap();
    let rom = [0xde_u8, 0xad, 0xbe, 0xef];
    let bytes = encode(&background, &mask, &map, &platform, &rom).unwrap();
    assert_eq!(bytes.len(), 256 + 12 + 130 + 4);
    assert_eq!(bytes[..256], build_config(&platform).unwrap()[..]);
    assert_eq!(bytes[256..268], [1, 0, 2, 0, 3, 0, 4, 14, 5, 15, 6, 16]);
    assert_eq!(bytes[268..273], [0x2a, 0x04, 0x00, 0x40, 0x00]);
    assert!(bytes[273..398].iter().all(|b| *b == 0));
    assert_eq!(bytes[398..], rom);
}

#[test]
fn artifact_fails_on_bad_port_before_mask_overflow() {
    let mut cells = Vec::new();
    for i in 0..27u16 {
        cells.push(Some(i));
        cells.push(None);
    }
    let map = PixelIDMap::from_cells(54, 1, cells).unwrap();
    let good = platform_with(CPUType::SM510, Screen::Single { width: 2, height: 1 }, vec![]);
    assert_eq!(encode(&[], &[], &map, &good, &[]).err(), Some(EncodeError::MaskTableOverflow));
    let wide = PixelIDMap::from_cells(1025, 1, vec![Some(1); 1025]).unwrap();
    assert_eq!(encode(&[], &[], &wide, &good, &[]).err(), Some(EncodeError::MaskEntryOutOfRange));
    let bad = platform_with(
        CPUType::SM510,
        Screen::Single { width: 2, height: 1 },
        vec![Port::S { index: 8, bitmap: [None, None, None, None] }],
    );
    assert_eq!(
        encode(&[], &[], &map, &bad, &[]).err(),
        Some(EncodeError::PortIndexOutOfBounds { index: 8 })
    );
}
