//! The binary artifact: the configuration block, the pixel stream, the mask table and the
//! program, one after the other.

use crate::bits::{
    bit_at, byte_bit, byte_of, lemma_bytes_from_bits, long_bit, store_bits, word_bit,
};
use crate::manifest::{Action, CPUType, NamedAction, PlatformSpecification, Port, Screen};
use crate::mask::{
    all_fit, build_mask_map, table_bytes, MaskError, PixelGrid, PixelIDMap,
    AVERAGE_ENTRIES_PER_ROW,
};
use vstd::prelude::*;

verus! {

/// The version of the format, which is the first byte of the artifact.
pub const FORMAT_VERSION: u8 = 1;

/// The byte that stands for an input that nothing is mapped to.
pub const UNMAPPED_INPUT: u8 = 0x7F;

/// The number of bytes in the configuration block.
pub const CONFIG_LENGTH: usize = 0x100;

/// Why no artifact could be built.
#[derive(Clone, Copy, Debug, PartialEq, Eq, Structural)]
pub enum EncodeError {
    /// An `S` port has an index above seven.
    PortIndexOutOfBounds { index: usize },
    /// A run of the mask has a number that ten bits cannot hold.
    MaskEntryOutOfRange,
    /// The mask has more runs than its table has room for.
    MaskTableOverflow,
}

/// The number that stands for an action.
pub open spec fn action_code(action: Action) -> u8 {
    match action {
        Action::JoyUp => 0,
        Action::JoyDown => 1,
        Action::JoyLeft => 2,
        Action::JoyRight => 3,
        Action::Button1 => 4,
        Action::Button2 => 5,
        Action::Button3 => 6,
        Action::Button4 => 7,
        Action::Button5 => 8,
        Action::Button6 => 9,
        Action::Button7 => 10,
        Action::Button8 => 11,
        Action::Select => 12,
        Action::Start1 => 13,
        Action::Start2 => 14,
        Action::Service1 => 15,
        Action::Service2 => 16,
        Action::LeftJoyUp => 17,
        Action::LeftJoyDown => 18,
        Action::LeftJoyLeft => 19,
        Action::LeftJoyRight => 20,
        Action::RightJoyUp => 21,
        Action::RightJoyDown => 22,
        Action::RightJoyLeft => 23,
        Action::RightJoyRight => 24,
        Action::VolumeDown => 25,
        Action::PowerOn => 26,
        Action::PowerOff => 27,
        Action::Keypad => 28,
        Action::Custom => 29,
        Action::Unused => 0x7F,
    }
}

/// The byte that stands for an input: the number of its action, with the highest bit set
/// where the input is active when low.
pub open spec fn input_value(action: NamedAction) -> u8 {
    if action.active_low {
        action_code(action.action) | 0x80u8
    } else {
        action_code(action.action)
    }
}

/// The byte that stands for an input.
pub fn input_value_for_port(action: &NamedAction) -> (res: u8)
    ensures
        res == input_value(*action),
{
    let mut input: u8 = match action.action {
        Action::JoyUp => 0,
        Action::JoyDown => 1,
        Action::JoyLeft => 2,
        Action::JoyRight => 3,
        Action::Button1 => 4,
        Action::Button2 => 5,
        Action::Button3 => 6,
        Action::Button4 => 7,
        Action::Button5 => 8,
        Action::Button6 => 9,
        Action::Button7 => 10,
        Action::Button8 => 11,
        Action::Select => 12,
        Action::Start1 => 13,
        Action::Start2 => 14,
        Action::Service1 => 15,
        Action::Service2 => 16,
        Action::LeftJoyUp => 17,
        Action::LeftJoyDown => 18,
        Action::LeftJoyLeft => 19,
        Action::LeftJoyRight => 20,
        Action::RightJoyUp => 21,
        Action::RightJoyDown => 22,
        Action::RightJoyLeft => 23,
        Action::RightJoyRight => 24,
        Action::VolumeDown => 25,
        Action::PowerOn => 26,
        Action::PowerOff => 27,
        Action::Keypad => 28,
        Action::Custom => 29,
        Action::Unused => 0x7F,
    };
    if action.active_low {
        input = input | 0x80;
    }
    input
}

/// The number that stands for a processor.
pub open spec fn cpu_code(cpu: CPUType) -> u8 {
    match cpu {
        CPUType::SM510 => 0,
        CPUType::SM511 => 1,
        CPUType::SM512 => 2,
        CPUType::SM530 => 3,
        CPUType::SM5a => 4,
        CPUType::SM510Tiger => 5,
        CPUType::SM511Tiger1Bit => 6,
        CPUType::SM511Tiger2Bit => 7,
        CPUType::KB1013VK12 => 8,
    }
}

/// The number that stands for the way the screens lie.
pub open spec fn screen_code(screen: Screen) -> u8 {
    match screen {
        Screen::Single { .. } => 0,
        Screen::DualVertical { .. } => 1,
        Screen::DualHorizontal { .. } => 2,
    }
}

/// The width that the block reports: that of the only screen, of the top one or of the left
/// one.
pub open spec fn screen_width(screen: Screen) -> u16 {
    match screen {
        Screen::Single { width, height } => width,
        Screen::DualVertical { top, bottom } => top.width,
        Screen::DualHorizontal { left, right } => left.width,
    }
}

/// The height that the block reports: that of the only screen, of the top one or of the left
/// one.
pub open spec fn screen_height(screen: Screen) -> u16 {
    match screen {
        Screen::Single { width, height } => height,
        Screen::DualVertical { top, bottom } => top.height,
        Screen::DualHorizontal { left, right } => left.height,
    }
}

/// Width and height in twenty bits: the ten lowest bits of the width, then those of the
/// height.
pub open spec fn size_word(width: u16, height: u16) -> u64 {
    ((width & 0x3ffu16) as u64) | (((height & 0x3ffu16) as u64) << 10u64)
}

/// The three bytes that hold width and height, the lowest first.
pub open spec fn size_bytes(width: u16, height: u16) -> Seq<u8> {
    Seq::new(3, |k: int| byte_of(size_word(width, height), k as u64))
}

proof fn lemma_size_word_bits(width: u16, height: u16, i: u64)
    by (bit_vector)
    requires
        i < 24,
    ensures
        long_bit(size_word(width, height), i) == if i < 10 {
            word_bit(width, i as u16)
        } else if i < 20 {
            word_bit(height, (i - 10) as u16)
        } else {
            false
        },
{
}

proof fn lemma_zero_bits(j: u8)
    by (bit_vector)
    requires
        j < 8,
    ensures
        !byte_bit(0u8, j),
{
}

/// Packs width and height into three bytes.
pub fn pack_size(width: u16, height: u16) -> (res: Vec<u8>)
    ensures
        res@ == size_bytes(width, height),
{
    let mut data: Vec<u8> = Vec::new();
    data.push(0);
    data.push(0);
    data.push(0);
    let ghost blank = data@;
    store_bits(&mut data, 0, 10, width);
    store_bits(&mut data, 10, 20, height);
    proof {
        let word = size_word(width, height);
        assert forall|p: int| 0 <= p < 24 implies #[trigger] bit_at(data@, p) == long_bit(
            word,
            p as u64,
        ) by {
            lemma_size_word_bits(width, height, p as u64);
            if p >= 20 {
                lemma_zero_bits((p % 8) as u8);
                assert(bit_at(blank, p) == byte_bit(0u8, (p % 8) as u8));
            }
        }
        lemma_bytes_from_bits(data@, word, 3);
        assert(data@ =~= size_bytes(width, height));
    }
    data
}

/// The byte for one bit of a port: that of its input, or the one for "unmapped".
pub open spec fn bit_value(bit: Option<NamedAction>) -> u8 {
    match bit {
        Some(action) => input_value(action),
        None => UNMAPPED_INPUT,
    }
}

/// The byte for one bit of a port.
pub fn input_value_for_bit(bit: &Option<NamedAction>) -> (res: u8)
    ensures
        res == bit_value(*bit),
{
    match bit {
        Some(action) => input_value_for_port(action),
        None => UNMAPPED_INPUT,
    }
}

/// The number of bytes in the input table: four for each of the eight `S` ports, and one
/// each for the ports `B`, `BA` and `ACL`.
pub const PORT_TABLE_LENGTH: usize = 35;

/// The input table before any port is entered: every input is unmapped.
pub open spec fn blank_port_table() -> Seq<u8> {
    Seq::new(PORT_TABLE_LENGTH as nat, |i: int| UNMAPPED_INPUT)
}

/// The input table with one more port entered. An `S` port fills the four bytes of its index,
/// the others their one byte; a port entered later replaces what an earlier one put there.
pub open spec fn enter_port(table: Seq<u8>, port: Port) -> Seq<u8> {
    match port {
        Port::S { index, bitmap } => Seq::new(
            table.len(),
            |i: int|
                if 4 * index <= i < 4 * index + 4 {
                    bit_value(bitmap@[i - 4 * index])
                } else {
                    table[i]
                },
        ),
        Port::B { bit } => table.update(32, bit_value(bit)),
        Port::BA { bit } => table.update(33, bit_value(bit)),
        Port::ACL { bit } => table.update(34, bit_value(bit)),
    }
}

/// The input table with the ports entered in their order.
pub open spec fn port_table(ports: Seq<Port>) -> Seq<u8>
    decreases ports.len(),
{
    if ports.len() == 0 {
        blank_port_table()
    } else {
        enter_port(port_table(ports.drop_last()), ports.last())
    }
}

/// Whether the port is an `S` port with an index that the table has no place for.
pub open spec fn is_misplaced(port: Port) -> bool {
    port matches Port::S { index, .. } && index > 7
}

/// Whether `i` is the place of the first port that the table has no place for.
pub open spec fn is_first_misplaced(ports: Seq<Port>, i: int) -> bool {
    &&& 0 <= i < ports.len()
    &&& is_misplaced(ports[i])
    &&& forall|j: int| 0 <= j < i ==> !is_misplaced(#[trigger] ports[j])
}

/// The configuration block of a platform, 256 bytes: the format's version, the processor, the
/// way the screens lie, width and height in three bytes, two reserved bytes, the input table,
/// and zeros up to the end.
pub open spec fn config_bytes(platform: PlatformSpecification) -> Seq<u8> {
    seq![
        FORMAT_VERSION,
        cpu_code(platform.device.cpu),
        screen_code(platform.device.screen),
    ] + size_bytes(screen_width(platform.device.screen), screen_height(platform.device.screen))
        + seq![0u8, 0u8] + port_table(platform.port_map.ports@) + Seq::new(
        213,
        |i: int| 0u8,
    )
}

/// The input table is 35 bytes long.
pub proof fn lemma_port_table_len(ports: Seq<Port>)
    ensures
        port_table(ports).len() == 35,
    decreases ports.len(),
{
    if ports.len() > 0 {
        lemma_port_table_len(ports.drop_last());
    }
}

/// Builds the input table, or reports the first `S` port with an index above seven.
pub fn build_port_table(ports: &Vec<Port>) -> (res: Result<Vec<u8>, EncodeError>)
    ensures
        match res {
            Ok(table) => table@ == port_table(ports@) && forall|j: int|
                0 <= j < ports@.len() ==> !is_misplaced(#[trigger] ports@[j]),
            Err(e) => exists|i: int|
                is_first_misplaced(ports@, i) && e == (EncodeError::PortIndexOutOfBounds {
                    index: (#[trigger] ports@[i])->S_index,
                }),
        },
{
    let mut table: Vec<u8> = vec![UNMAPPED_INPUT; PORT_TABLE_LENGTH];
    assert(table@ =~= blank_port_table());
    let mut n: usize = 0;
    while n < ports.len()
        invariant
            n <= ports@.len(),
            table@ == port_table(ports@.take(n as int)),
            table@.len() == 35,
            forall|j: int| 0 <= j < n ==> !is_misplaced(#[trigger] ports@[j]),
        decreases ports@.len() - n,
    {
        let ghost before = table@;
        proof {
            assert(ports@.take(n + 1).drop_last() =~= ports@.take(n as int));
            assert(ports@.take(n + 1).last() == ports@[n as int]);
        }
        match &ports[n] {
            Port::S { index, bitmap } => {
                if *index > 7 {
                    assert(is_first_misplaced(ports@, n as int));
                    return Err(EncodeError::PortIndexOutOfBounds { index: *index });
                }
                let mut j: usize = 0;
                while j < 4
                    invariant
                        j <= 4,
                        *index <= 7,
                        table@.len() == 35,
                        before.len() == 35,
                        forall|i: int|
                            0 <= i < 35 ==> #[trigger] table@[i] == if 4 * *index <= i < 4 * *index
                                + j {
                                bit_value(bitmap@[i - 4 * *index])
                            } else {
                                before[i]
                            },
                    decreases 4 - j,
                {
                    table.set(4 * *index + j, input_value_for_bit(&bitmap[j]));
                    j += 1;
                }
                assert(table@ =~= enter_port(before, ports@[n as int]));
            },
            Port::B { bit } => {
                table.set(32, input_value_for_bit(bit));
            },
            Port::BA { bit } => {
                table.set(33, input_value_for_bit(bit));
            },
            Port::ACL { bit } => {
                table.set(34, input_value_for_bit(bit));
            },
        }
        n += 1;
    }
    assert(ports@.take(n as int) =~= ports@);
    Ok(table)
}

/// Builds the configuration block of a platform. It fails where an `S` port has an index
/// above seven, and reports the first such port.
pub fn build_config(platform: &PlatformSpecification) -> (res: Result<Vec<u8>, EncodeError>)
    ensures
        match res {
            Ok(config) => config@ == config_bytes(*platform) && config@.len() == CONFIG_LENGTH
                && forall|j: int|
                0 <= j < platform.port_map.ports@.len() ==> !is_misplaced(
                    #[trigger] platform.port_map.ports@[j],
                ),
            Err(e) => exists|i: int|
                is_first_misplaced(platform.port_map.ports@, i) && e == (
                EncodeError::PortIndexOutOfBounds {
                    index: (#[trigger] platform.port_map.ports@[i])->S_index,
                }),
        },
{
    let mut config: Vec<u8> = Vec::new();
    config.push(FORMAT_VERSION);
    let version: u8 = match platform.device.cpu {
        CPUType::SM510 => 0,
        CPUType::SM511 => 1,
        CPUType::SM512 => 2,
        CPUType::SM530 => 3,
        CPUType::SM5a => 4,
        CPUType::SM510Tiger => 5,
        CPUType::SM511Tiger1Bit => 6,
        CPUType::SM511Tiger2Bit => 7,
        CPUType::KB1013VK12 => 8,
    };
    config.push(version);
    let (screen, width, height): (u8, u16, u16) = match platform.device.screen {
        Screen::Single { width, height } => (0, width, height),
        Screen::DualVertical { top, bottom } => (1, top.width, top.height),
        Screen::DualHorizontal { left, right } => (2, left.width, left.height),
    };
    config.push(screen);
    let mut size: Vec<u8> = pack_size(width, height);
    config.append(&mut size);
    config.push(0);
    config.push(0);
    let mut table: Vec<u8> = build_port_table(&platform.port_map.ports)?;
    config.append(&mut table);
    let ghost head = config@;
    let mut k: usize = 0;
    while k < 213
        invariant
            k <= 213,
            config@ == head + Seq::new(k as nat, |i: int| 0u8),
        decreases 213 - k,
    {
        config.push(0);
        k += 1;
        assert(config@ =~= head + Seq::new(k as nat, |i: int| 0u8));
    }
    proof {
        lemma_port_table_len(platform.port_map.ports@);
        assert(config@ =~= config_bytes(*platform));
    }
    Ok(config)
}

/// The place in the pixel buffers of the sample that comes `m`-th in the stream: every
/// fourth byte of the buffers, the alpha of a pixel, is passed over.
pub open spec fn sample_source(m: int) -> int {
    4 * (m / 3) + m % 3
}

/// The number of samples among the first `n` bytes of a pixel buffer.
pub open spec fn sample_count(n: int) -> int {
    n - n / 4
}

/// The pixel stream of two buffers: for each sample that both buffers hold, the byte of the
/// background and then the byte of the mask.
pub open spec fn pixel_stream(background: Seq<u8>, mask: Seq<u8>) -> Seq<u8> {
    let n = if background.len() <= mask.len() {
        background.len() as int
    } else {
        mask.len() as int
    };
    Seq::new(
        (2 * sample_count(n)) as nat,
        |j: int|
            if j % 2 == 0 {
                background[sample_source(j / 2)]
            } else {
                mask[sample_source(j / 2)]
            },
    )
}

/// Interleaves the colour bytes of the background and of the mask, without their alpha.
pub fn interleave_pixels(background_bytes: &[u8], mask_bytes: &[u8]) -> (res: Vec<u8>)
    ensures
        res@ == pixel_stream(background_bytes@, mask_bytes@),
{
    let n: usize = if background_bytes.len() <= mask_bytes.len() {
        background_bytes.len()
    } else {
        mask_bytes.len()
    };
    let mut out: Vec<u8> = Vec::new();
    let mut i: usize = 0;
    while i < n
        invariant
            i <= n,
            n <= background_bytes@.len(),
            n <= mask_bytes@.len(),
            out@.len() == 2 * sample_count(i as int),
            forall|j: int|
                0 <= j < out@.len() ==> #[trigger] out@[j] == if j % 2 == 0 {
                    background_bytes@[sample_source(j / 2)]
                } else {
                    mask_bytes@[sample_source(j / 2)]
                },
        decreases n - i,
    {
        if i % 4 != 3 {
            assert(sample_source(sample_count(i as int)) == i);
            out.push(background_bytes[i]);
            out.push(mask_bytes[i]);
        }
        i += 1;
    }
    assert(out@ =~= pixel_stream(background_bytes@, mask_bytes@));
    out
}

/// The bytes of the artifact: the configuration block, the pixel stream, the mask table and
/// the program.
pub open spec fn artifact_bytes(
    background: Seq<u8>,
    mask: Seq<u8>,
    map: PixelGrid,
    platform: PlatformSpecification,
    rom: Seq<u8>,
) -> Seq<u8> {
    config_bytes(platform) + pixel_stream(background, mask) + table_bytes(
        map.runs(),
        AVERAGE_ENTRIES_PER_ROW * map.height,
    ) + rom
}

/// Assembles the artifact of a platform from the two pixel buffers, the map of pixel owners
/// and the bytes of the program. It fails where the configuration block cannot be built, else
/// where a run of the mask has a number that ten bits cannot hold, and else where the mask
/// has more runs than its table has room for.
pub fn encode(
    background_bytes: &[u8],
    mask_bytes: &[u8],
    pixels_to_mask_id: &PixelIDMap,
    platform: &PlatformSpecification,
    rom_data: &[u8],
) -> (res: Result<Vec<u8>, EncodeError>)
    requires
        pixels_to_mask_id@.wf(),
        5 * AVERAGE_ENTRIES_PER_ROW * pixels_to_mask_id@.height <= usize::MAX,
    ensures
        match res {
            Ok(bytes) => {
                &&& bytes@ == artifact_bytes(
                    background_bytes@,
                    mask_bytes@,
                    pixels_to_mask_id@,
                    *platform,
                    rom_data@,
                )
                &&& forall|j: int|
                    0 <= j < platform.port_map.ports@.len() ==> !is_misplaced(
                        #[trigger] platform.port_map.ports@[j],
                    )
                &&& all_fit(pixels_to_mask_id@.runs())
                &&& pixels_to_mask_id@.runs().len() <= AVERAGE_ENTRIES_PER_ROW
                    * pixels_to_mask_id@.height
            },
            Err(EncodeError::PortIndexOutOfBounds { index }) => exists|i: int|
                is_first_misplaced(platform.port_map.ports@, i) && index == (
                #[trigger] platform.port_map.ports@[i])->S_index,
            Err(EncodeError::MaskEntryOutOfRange) => {
                &&& forall|j: int|
                    0 <= j < platform.port_map.ports@.len() ==> !is_misplaced(
                        #[trigger] platform.port_map.ports@[j],
                    )
                &&& !all_fit(pixels_to_mask_id@.runs())
            },
            Err(EncodeError::MaskTableOverflow) => {
                &&& forall|j: int|
                    0 <= j < platform.port_map.ports@.len() ==> !is_misplaced(
                        #[trigger] platform.port_map.ports@[j],
                    )
                &&& all_fit(pixels_to_mask_id@.runs())
                &&& pixels_to_mask_id@.runs().len() > AVERAGE_ENTRIES_PER_ROW
                    * pixels_to_mask_id@.height
            },
        },
{
    let mut config: Vec<u8> = match build_config(platform) {
        Ok(config) => config,
        Err(e) => {
            return Err(e);
        },
    };
    let mut image_block: Vec<u8> = interleave_pixels(background_bytes, mask_bytes);
    config.append(&mut image_block);
    let mut mask_block: Vec<u8> = match build_mask_map(pixels_to_mask_id) {
        Ok(block) => block,
        Err(MaskError::EntryOutOfRange) => {
            return Err(EncodeError::MaskEntryOutOfRange);
        },
        Err(MaskError::MaskTableOverflow) => {
            return Err(EncodeError::MaskTableOverflow);
        },
    };
    config.append(&mut mask_block);
    config.extend_from_slice(rom_data);
    Ok(config)
}

/// Two buffers of `count` pixels give a stream of six bytes for each pixel: three samples,
/// each once from the background and once from the mask.
pub proof fn lemma_pixel_stream_len(background: Seq<u8>, mask: Seq<u8>, count: int)
    requires
        0 <= count,
        background.len() == 4 * count,
        mask.len() == 4 * count,
    ensures
        pixel_stream(background, mask).len() == 6 * count,
{
}

/// The artifact is as long as its four parts together: 256 bytes of configuration, six for
/// each pixel of the canvas, five for each entry that the mask table has room for, and the
/// program.
pub proof fn lemma_artifact_len(
    background: Seq<u8>,
    mask: Seq<u8>,
    map: PixelGrid,
    platform: PlatformSpecification,
    rom: Seq<u8>,
)
    requires
        map.wf(),
        background.len() == 4 * map.cells.len(),
        mask.len() == 4 * map.cells.len(),
    ensures
        artifact_bytes(background, mask, map, platform, rom).len() == 256 + 6 * map.cells.len() + 5
            * (AVERAGE_ENTRIES_PER_ROW * map.height) + rom.len(),
{
    lemma_port_table_len(platform.port_map.ports@);
    lemma_pixel_stream_len(background, mask, map.cells.len() as int);
}

} // verus!
