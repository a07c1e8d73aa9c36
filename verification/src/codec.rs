//! Segment titles: the three numbers `segment.column.row` that tag a shape, and the sixteen-bit
//! identifier they are packed into.

use crate::text::{chars_of, parse_u8, parsed_u8, split_chars, split_on, views};
use vstd::prelude::*;

verus! {

/// Largest segment number a title may carry.
pub const MAX_SEGMENT: u8 = 15;

/// Largest column number a title may carry.
pub const MAX_COLUMN: u8 = 15;

/// Largest row number a title may carry.
pub const MAX_ROW: u8 = 4;

/// A title field lies outside its range.
#[derive(Clone, Copy, Debug, PartialEq, Eq, Structural)]
pub struct TitleOutOfRange {}

/// Whether the three fields of a title lie in their ranges.
pub open spec fn title_in_range(segment: u8, column: u8, row: u8) -> bool {
    segment <= MAX_SEGMENT && column <= MAX_COLUMN && row <= MAX_ROW
}

/// The packed form of a title: the segment from bit 6 up, the column from bit 2 up, the row
/// below.
pub open spec fn packed_title(segment: u8, column: u8, row: u8) -> u16 {
    ((segment as u16) << 6) | ((column as u16) << 2) | (row as u16)
}

/// The segment held in a packed title.
pub open spec fn segment_of(id: u16) -> u8 {
    ((id >> 6) & 15) as u8
}

/// The column held in a packed title.
pub open spec fn column_of(id: u16) -> u8 {
    ((id >> 2) & 15) as u8
}

/// The row held in the two lowest bits of a packed title.
pub open spec fn row_of(id: u16) -> u8 {
    (id & 3) as u8
}

/// Packs a title into its identifier, or rejects it when a field is out of range.
pub fn encode_title(segment: u8, column: u8, row: u8) -> (res: Result<u16, TitleOutOfRange>)
    ensures
        title_in_range(segment, column, row) ==> res == Ok::<u16, TitleOutOfRange>(
            packed_title(segment, column, row),
        ),
        !title_in_range(segment, column, row) ==> res is Err,
        res is Ok ==> res->Ok_0 < 1024,
{
    if segment > MAX_SEGMENT || column > MAX_COLUMN || row > MAX_ROW {
        return Err(TitleOutOfRange {});
    }
    let s: u16 = segment as u16;
    let c: u16 = column as u16;
    let r: u16 = row as u16;
    assert(((s << 6) | (c << 2) | r) < 1024) by (bit_vector)
        requires
            s <= 15,
            c <= 15,
            r <= 4,
    ;
    Ok((s << 6) | (c << 2) | r)
}

/// Unpacks an identifier into segment, column and row.
pub fn decode_title(id: u16) -> (res: (u8, u8, u8))
    ensures
        res.0 == segment_of(id),
        res.1 == column_of(id),
        res.2 == row_of(id),
        res.0 <= 15,
        res.1 <= 15,
        res.2 <= 3,
{
    let s: u16 = (id >> 6) & 15;
    let c: u16 = (id >> 2) & 15;
    let r: u16 = id & 3;
    assert(((id >> 6) & 15) <= 15 && ((id >> 2) & 15) <= 15 && (id & 3) <= 3) by (bit_vector);
    (s as u8, c as u8, r as u8)
}

/// Decoding what was encoded gives the three fields back, for every title whose row fits the
/// two bits that the packed form leaves for it.
pub proof fn lemma_decode_encode(segment: u8, column: u8, row: u8)
    requires
        segment <= 15,
        column <= 15,
        row <= 3,
    ensures
        segment_of(packed_title(segment, column, row)) == segment,
        column_of(packed_title(segment, column, row)) == column,
        row_of(packed_title(segment, column, row)) == row,
{
    let s: u16 = segment as u16;
    let c: u16 = column as u16;
    let r: u16 = row as u16;
    assert(((((s << 6) | (c << 2) | r) >> 6) & 15) == s && ((((s << 6) | (c << 2) | r) >> 2) & 15)
        == c && (((s << 6) | (c << 2) | r) & 3) == r) by (bit_vector)
        requires
            s <= 15,
            c <= 15,
            r <= 3,
    ;
}

/// Encoding what was decoded gives the identifier back, for every identifier of ten bits.
pub proof fn lemma_encode_decode(id: u16)
    requires
        id < 1024,
    ensures
        title_in_range(segment_of(id), column_of(id), row_of(id)),
        packed_title(segment_of(id), column_of(id), row_of(id)) == id,
{
    let s: u16 = (id >> 6) & 15;
    let c: u16 = (id >> 2) & 15;
    let r: u16 = id & 3;
    assert(s <= 15 && c <= 15 && r <= 3 && ((s << 6) | (c << 2) | r) == id) by (bit_vector)
        requires
            id < 1024,
            s == (id >> 6) & 15,
            c == (id >> 2) & 15,
            r == id & 3,
    ;
    assert(s as u8 as u16 == s && c as u8 as u16 == c && r as u8 as u16 == r);
}

/// A row of four shares its bit with the column: such a title packs to the same identifier as
/// the title with the column's lowest bit set and the same row bits.
pub proof fn lemma_row_four_overlaps(segment: u8, column: u8)
    requires
        segment <= 15,
        column <= 15,
    ensures
        row_of(packed_title(segment, column, 4)) == 0,
        column_of(packed_title(segment, column, 4)) == column | 1,
        segment_of(packed_title(segment, column, 4)) == segment,
{
    let s: u16 = segment as u16;
    let c: u16 = column as u16;
    assert(((((s << 6) | (c << 2) | 4u16) >> 6) & 15) == s && ((((s << 6) | (c << 2) | 4u16) >> 2)
        & 15) == (c | 1) && (((s << 6) | (c << 2) | 4u16) & 3) == 0) by (bit_vector)
        requires
            s <= 15,
            c <= 15,
    ;
    assert((c | 1) as u8 == column | 1) by (bit_vector)
        requires
            c == column as u16,
    ;
}

/// The identifier that a title's text writes: exactly three numbers, separated by full stops,
/// each within its range. Any other text writes none.
pub open spec fn title_of(text: Seq<char>) -> Option<u16> {
    let parts = split_on(text, '.');
    if parts.len() != 3 {
        None
    } else {
        match (parsed_u8(parts[0]), parsed_u8(parts[1]), parsed_u8(parts[2])) {
            (Some(segment), Some(column), Some(row)) => if title_in_range(segment, column, row) {
                Some(packed_title(segment, column, row))
            } else {
                None
            },
            _ => None,
        }
    }
}

/// Reads the identifier that a title's text writes. A text that is no title gives `None`: the
/// shape or group that carries it counts as untitled.
pub fn parse_title(title: &str) -> (res: Option<u16>)
    ensures
        res == title_of(title@),
{
    let chars: Vec<char> = chars_of(title);
    let parts: Vec<Vec<char>> = split_chars(&chars, '.');
    if parts.len() != 3 {
        return None;
    }
    assert(views(parts@)[0] == parts@[0]@);
    assert(views(parts@)[1] == parts@[1]@);
    assert(views(parts@)[2] == parts@[2]@);
    let segment: Option<u8> = parse_u8(&parts[0]);
    let column: Option<u8> = parse_u8(&parts[1]);
    let row: Option<u8> = parse_u8(&parts[2]);
    match (segment, column, row) {
        (Some(segment), Some(column), Some(row)) => match encode_title(segment, column, row) {
            Ok(id) => Some(id),
            Err(_) => None,
        },
        _ => None,
    }
}

/// The colour that marks the shapes of a title in the drawn artwork: no red, the high byte
/// of the identifier as green and its low byte as blue.
pub open spec fn color_of_title(id: u16) -> (u8, u8, u8) {
    (0u8, (id >> 8) as u8, (id & 0xff) as u8)
}

/// The identifier that a marking colour stands for: that of green and blue, where there is
/// no red.
pub open spec fn title_of_color(red: u8, green: u8, blue: u8) -> Option<u16> {
    if red == 0 {
        Some(((green as u16) << 8) | (blue as u16))
    } else {
        None
    }
}

/// The colour that marks the shapes of a title.
pub fn title_color(id: u16) -> (res: (u8, u8, u8))
    ensures
        res == color_of_title(id),
        title_of_color(res.0, res.1, res.2) == Some(id),
{
    let green: u16 = id >> 8;
    let blue: u16 = id & 0xff;
    assert(green <= 0xff && blue <= 0xff && ((green << 8) | blue) == id) by (bit_vector)
        requires
            green == id >> 8,
            blue == id & 0xff,
    ;
    (0, green as u8, blue as u8)
}

/// The identifier that a marking colour stands for.
pub fn color_title(red: u8, green: u8, blue: u8) -> (res: Option<u16>)
    ensures
        res == title_of_color(red, green, blue),
{
    if red != 0 {
        return None;
    }
    Some(((green as u16) << 8) | (blue as u16))
}

} // verus!
