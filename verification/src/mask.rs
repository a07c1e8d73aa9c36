//! The segment mask: which segment owns each pixel, the horizontal runs of one segment, and
//! the table that lists those runs.

use crate::bits::{bit_at, byte_of, lemma_bytes_from_bits, long_bit, store_bits, word_bit};
use vstd::prelude::*;

verus! {

/// The number of bytes that one entry of the table takes.
pub const BYTES_PER_ENTRY: usize = 5;

/// The number of entries that the table has room for, per row of the canvas.
pub const AVERAGE_ENTRIES_PER_ROW: usize = 26;

/// One horizontal run of pixels that belong to one segment.
#[derive(Clone, Copy, Debug, PartialEq, Eq, Structural)]
pub struct MaskRunEntry {
    pub id: u16,
    pub start_x: usize,
    pub y: usize,
    pub length: usize,
}

/// Why the runs of a mask cannot be listed in its table.
#[derive(Clone, Copy, Debug, PartialEq, Eq, Structural)]
pub enum MaskError {
    /// A run has an identifier, a first column, a row or a length that ten bits cannot hold.
    EntryOutOfRange,
    /// The table has no room for another entry.
    MaskTableOverflow,
}

/// The first number that the ten bits of a field cannot hold.
pub const FIELD_LIMIT: usize = 1024;

/// Whether the four numbers of a run are such that ten bits hold each.
pub open spec fn fits_entry(id: u16, length: int, start_x: int, y: int) -> bool {
    &&& id < FIELD_LIMIT
    &&& 0 <= length < FIELD_LIMIT
    &&& 0 <= start_x < FIELD_LIMIT
    &&& 0 <= y < FIELD_LIMIT
}

/// The forty bits of an entry: the identifier in the ten lowest, then the run's first column,
/// its row and its length, ten bits each.
pub open spec fn entry_word(id: u16, start_x: u16, y: u16, length: u16) -> u64 {
    (id as u64) | ((start_x as u64) << 10u64) | ((y as u64) << 20u64) | ((length as u64) << 30u64)
}

/// The five bytes of an entry whose numbers ten bits hold: those of its forty bits, the
/// lowest first.
pub open spec fn entry_bytes(id: u16, length: int, start_x: int, y: int) -> Seq<u8> {
    let word = entry_word(id, start_x as u16, y as u16, length as u16);
    Seq::new(5, |k: int| byte_of(word, k as u64))
}

proof fn lemma_entry_word_bits(id: u16, start_x: u16, y: u16, length: u16, i: u64)
    by (bit_vector)
    requires
        i < 40,
        id < 1024,
        start_x < 1024,
        y < 1024,
        length < 1024,
    ensures
        long_bit(entry_word(id, start_x, y, length), i) == if i < 10 {
            word_bit(id, i as u16)
        } else if i < 20 {
            word_bit(start_x, (i - 10) as u16)
        } else if i < 30 {
            word_bit(y, (i - 20) as u16)
        } else {
            word_bit(length, (i - 30) as u16)
        },
{
}

/// Packs one run into the five bytes of its entry.
pub fn entry_to_bytes(id: u16, length: usize, start_x: usize, y: usize) -> (res: Vec<u8>)
    requires
        fits_entry(id, length as int, start_x as int, y as int),
    ensures
        res@ == entry_bytes(id, length as int, start_x as int, y as int),
{
    let sx: u16 = start_x as u16;
    let row: u16 = y as u16;
    let len: u16 = length as u16;
    let mut data: Vec<u8> = Vec::new();
    data.push(0);
    data.push(0);
    data.push(0);
    data.push(0);
    data.push(0);
    store_bits(&mut data, 0, 10, id);
    store_bits(&mut data, 10, 20, sx);
    store_bits(&mut data, 20, 30, row);
    store_bits(&mut data, 30, 40, len);
    proof {
        let word = entry_word(id, sx, row, len);
        assert forall|p: int| 0 <= p < 40 implies #[trigger] bit_at(data@, p) == long_bit(
            word,
            p as u64,
        ) by {
            lemma_entry_word_bits(id, sx, row, len, p as u64);
        }
        lemma_bytes_from_bits(data@, word, 5);
        assert(data@ =~= entry_bytes(id, length as int, start_x as int, y as int));
    }
    data
}

impl MaskRunEntry {
    /// Whether the four numbers of the run are such that ten bits hold each.
    pub open spec fn fits(self) -> bool {
        fits_entry(self.id, self.length as int, self.start_x as int, self.y as int)
    }
}

/// Whether the numbers of every run are such that ten bits hold each.
pub open spec fn all_fit(runs: Seq<MaskRunEntry>) -> bool {
    forall|k: int| 0 <= k < runs.len() ==> (#[trigger] runs[k]).fits()
}

/// What a pixel map holds: for each pixel of a canvas, row by row, the segment that owns it, if
/// any.
pub struct PixelGrid {
    pub width: nat,
    pub height: nat,
    pub cells: Seq<Option<u16>>,
}

/// The runs among the first `n` pixels of a row, from left to right. A run starts at a pixel
/// that has an owner and is the first of its row or has another owner than the pixel before
/// it (or follows one without owner); it goes on as long as the owner stays the same.
pub open spec fn row_runs(row: Seq<Option<u16>>, y: int, n: int) -> Seq<MaskRunEntry>
    decreases n,
{
    if n <= 0 {
        Seq::empty()
    } else {
        let before = row_runs(row, y, n - 1);
        match row[n - 1] {
            None => before,
            Some(id) => if n >= 2 && row[n - 2] == Some(id) {
                before.update(
                    before.len() - 1,
                    MaskRunEntry {
                        id,
                        start_x: before.last().start_x,
                        y: y as usize,
                        length: (before.last().length + 1) as usize,
                    },
                )
            } else {
                before.push(
                    MaskRunEntry { id, start_x: (n - 1) as usize, y: y as usize, length: 1 },
                )
            },
        }
    }
}

impl PixelGrid {
    /// Whether there is one cell for each pixel.
    pub open spec fn wf(self) -> bool {
        self.cells.len() == self.width * self.height
    }

    /// Row `y` of the grid.
    pub open spec fn row(self, y: int) -> Seq<Option<u16>> {
        self.cells.subrange(y * self.width, y * self.width + self.width)
    }

    /// The runs of the first `rows` rows, row by row from the top.
    pub open spec fn runs_upto(self, rows: int) -> Seq<MaskRunEntry>
        decreases rows,
    {
        if rows <= 0 {
            Seq::empty()
        } else {
            self.runs_upto(rows - 1) + row_runs(self.row(rows - 1), rows - 1, self.width as int)
        }
    }

    /// All runs of the grid. No run spans two rows.
    pub open spec fn runs(self) -> Seq<MaskRunEntry> {
        self.runs_upto(self.height as int)
    }
}

/// Where the pixel at the end of a row's first `n` has an owner, the last run found so far is
/// the one it belongs to, and that run ends with it.
pub proof fn lemma_open_run(row: Seq<Option<u16>>, y: int, n: int)
    requires
        1 <= n <= row.len(),
        n <= usize::MAX,
        row[n - 1] is Some,
    ensures
        row_runs(row, y, n).len() >= 1,
        row_runs(row, y, n).last().id == row[n - 1]->0,
        row_runs(row, y, n).last().length >= 1,
        row_runs(row, y, n).last().start_x + row_runs(row, y, n).last().length == n,
    decreases n,
{
    let id = row[n - 1]->0;
    if n >= 2 && row[n - 2] == Some(id) {
        lemma_open_run(row, y, n - 1);
    }
}

/// Which segment owns each pixel of a canvas.
#[derive(Debug)]
pub struct PixelIDMap {
    width: usize,
    height: usize,
    cells: Vec<Option<u16>>,
}

impl View for PixelIDMap {
    type V = PixelGrid;

    closed spec fn view(&self) -> PixelGrid {
        PixelGrid { width: self.width as nat, height: self.height as nat, cells: self.cells@ }
    }
}

impl PixelIDMap {
    /// A map of the given size in which no pixel has an owner; none where the number of
    /// pixels is beyond what the machine can count.
    pub fn new(width: usize, height: usize) -> (res: Option<PixelIDMap>)
        ensures
            width * height <= usize::MAX ==> res is Some,
            width * height > usize::MAX ==> res is None,
            res matches Some(m) ==> m@.wf() && m@.width == width && m@.height == height
                && m@.cells == Seq::new((width * height) as nat, |i: int| None::<u16>),
    {
        match width.checked_mul(height) {
            Some(n) => {
                let cells: Vec<Option<u16>> = vec![None; n];
                assert(cells@ =~= Seq::new((width * height) as nat, |i: int| None::<u16>));
                Some(PixelIDMap { width, height, cells })
            },
            None => None,
        }
    }

    /// A map of the given size over the given cells, which list the pixels row by row; none
    /// where the number of cells is not that of the pixels.
    pub fn from_cells(width: usize, height: usize, cells: Vec<Option<u16>>) -> (res: Option<
        PixelIDMap,
    >)
        ensures
            cells@.len() == width * height ==> res is Some,
            cells@.len() != width * height ==> res is None,
            res matches Some(m) ==> m@.wf() && m@.width == width && m@.height == height
                && m@.cells == cells@,
    {
        let count: usize = cells.len();
        match width.checked_mul(height) {
            Some(n) => {
                if n == count {
                    Some(PixelIDMap { width, height, cells })
                } else {
                    None
                }
            },
            None => None,
        }
    }

    /// The width of the canvas.
    pub fn width(&self) -> (res: usize)
        ensures
            res == self@.width,
    {
        self.width
    }

    /// The height of the canvas.
    pub fn height(&self) -> (res: usize)
        ensures
            res == self@.height,
    {
        self.height
    }

    /// The number of pixels.
    pub fn len(&self) -> (res: usize)
        ensures
            res == self@.cells.len(),
    {
        self.cells.len()
    }

    /// The owner of pixel `i`, counted row by row.
    pub fn get(&self, i: usize) -> (res: Option<u16>)
        requires
            i < self@.cells.len(),
        ensures
            res == self@.cells[i as int],
    {
        self.cells[i]
    }

    /// Gives pixel `i`, counted row by row, a new owner or none.
    pub fn set(&mut self, i: usize, id: Option<u16>)
        requires
            i < old(self)@.cells.len(),
        ensures
            final(self)@.width == old(self)@.width,
            final(self)@.height == old(self)@.height,
            final(self)@.cells == old(self)@.cells.update(i as int, id),
    {
        self.cells.set(i, id);
    }
}

/// Finds the runs of a map, row by row from the top and from left to right within a row.
pub fn extract_runs(map: &PixelIDMap) -> (res: Vec<MaskRunEntry>)
    requires
        map@.wf(),
    ensures
        res@ == map@.runs(),
{
    let width: usize = map.width();
    let height: usize = map.height();
    let count: usize = map.len();
    let mut runs: Vec<MaskRunEntry> = Vec::new();
    let mut y: usize = 0;
    while y < height
        invariant
            map@.wf(),
            count == map@.cells.len(),
            width == map@.width,
            height == map@.height,
            y <= height,
            runs@ == map@.runs_upto(y as int),
        decreases height - y,
    {
        let ghost row = map@.row(y as int);
        let ghost done = runs@;
        assert(y * width + width <= width * height && 0 <= y * width) by (nonlinear_arith)
            requires
                y < height,
                0 <= width,
        ;
        assert(row.len() == width);
        let mut previous: Option<u16> = None;
        let mut x: usize = 0;
        while x < width
            invariant
                map@.wf(),
                count == map@.cells.len(),
                width == map@.width,
                height == map@.height,
                y < height,
                0 <= y * width,
                y * width + width <= width * height,
                x <= width,
                row == map@.row(y as int),
                row.len() == width,
                previous == if x == 0 {
                    None::<u16>
                } else {
                    row[x - 1]
                },
                runs@ == done + row_runs(row, y as int, x as int),
            decreases width - x,
        {
            let cell: Option<u16> = map.get(y * width + x);
            assert(cell == row[x as int]);
            let ghost found = row_runs(row, y as int, x as int);
            match cell {
                None => {},
                Some(id) => {
                    let extends: bool = match previous {
                        Some(p) => p == id,
                        None => false,
                    };
                    if extends {
                        proof {
                            lemma_open_run(row, y as int, x as int);
                        }
                        let last: usize = runs.len() - 1;
                        let open: MaskRunEntry = runs[last];
                        assert(open == found.last());
                        let grown = MaskRunEntry {
                            id,
                            start_x: open.start_x,
                            y,
                            length: open.length + 1,
                        };
                        runs.set(last, grown);
                        assert(runs@ =~= done + found.update(found.len() - 1, grown));
                    } else {
                        let fresh = MaskRunEntry { id, start_x: x, y, length: 1 };
                        runs.push(fresh);
                        assert(runs@ =~= done + found.push(fresh));
                    }
                },
            }
            previous = cell;
            x += 1;
        }
        y += 1;
    }
    runs
}

/// The table that lists `runs`: room for `capacity` entries of five bytes, the runs' entries
/// from the start in their order, and zero in every byte after them.
pub open spec fn table_bytes(runs: Seq<MaskRunEntry>, capacity: int) -> Seq<u8> {
    Seq::new(
        (5 * capacity) as nat,
        |i: int|
            if i < 5 * runs.len() {
                entry_bytes(
                    runs[i / 5].id,
                    runs[i / 5].length as int,
                    runs[i / 5].start_x as int,
                    runs[i / 5].y as int,
                )[i % 5]
            } else {
                0u8
            },
    )
}

/// Writes the entry of one run at `byte_index` and moves the index behind it. Where the table
/// has no room for five more bytes there, nothing is written and the overflow is reported.
pub fn insert_mask_entry_bytes(
    output: &mut Vec<u8>,
    byte_index: &mut usize,
    id: u16,
    length: usize,
    start_x: usize,
    y: usize,
) -> (res: Result<(), MaskError>)
    ensures
        !fits_entry(id, length as int, start_x as int, y as int) ==> res == Err::<(), MaskError>(
            MaskError::EntryOutOfRange,
        ),
        fits_entry(id, length as int, start_x as int, y as int) && *old(byte_index) + 5 > old(
            output,
        )@.len() ==> res == Err::<(), MaskError>(MaskError::MaskTableOverflow),
        fits_entry(id, length as int, start_x as int, y as int) && *old(byte_index) + 5 <= old(
            output,
        )@.len() ==> res is Ok,
        res is Ok ==> *final(byte_index) == *old(byte_index) + 5 && final(output)@ == old(
            output,
        )@.take(*old(byte_index) as int) + entry_bytes(id, length as int, start_x as int, y as int)
            + old(output)@.skip(*old(byte_index) + 5),
        res is Err ==> *final(byte_index) == *old(byte_index) && final(output)@ == old(output)@,
{
    if id as usize >= FIELD_LIMIT || length >= FIELD_LIMIT || start_x >= FIELD_LIMIT || y
        >= FIELD_LIMIT {
        return Err(MaskError::EntryOutOfRange);
    }
    let at: usize = *byte_index;
    if output.len() < BYTES_PER_ENTRY || at > output.len() - BYTES_PER_ENTRY {
        return Err(MaskError::MaskTableOverflow);
    }
    let entry: Vec<u8> = entry_to_bytes(id, length, start_x, y);
    let ghost before = output@;
    let mut k: usize = 0;
    while k < BYTES_PER_ENTRY
        invariant
            k <= 5,
            entry@.len() == 5,
            at + 5 <= before.len(),
            before.len() <= usize::MAX,
            output@.len() == before.len(),
            forall|i: int|
                0 <= i < before.len() ==> #[trigger] output@[i] == if at <= i < at + k {
                    entry@[i - at]
                } else {
                    before[i]
                },
        decreases 5 - k,
    {
        output.set(at + k, entry[k]);
        k += 1;
    }
    *byte_index = at + BYTES_PER_ENTRY;
    assert(output@ =~= before.take(at as int) + entry@ + before.skip(at + 5));
    Ok(())
}

/// Tells whether the four numbers of every run are such that ten bits hold each.
pub fn runs_fit(runs: &Vec<MaskRunEntry>) -> (res: bool)
    ensures
        res == all_fit(runs@),
{
    let mut n: usize = 0;
    while n < runs.len()
        invariant
            n <= runs@.len(),
            forall|k: int| 0 <= k < n ==> (#[trigger] runs@[k]).fits(),
        decreases runs@.len() - n,
    {
        let run: MaskRunEntry = runs[n];
        if run.id as usize >= FIELD_LIMIT || run.length >= FIELD_LIMIT || run.start_x
            >= FIELD_LIMIT || run.y >= FIELD_LIMIT {
            assert(!runs@[n as int].fits());
            return false;
        }
        n += 1;
    }
    true
}

/// Lists the runs of a map in a table with room for twenty-six entries per row of the map.
/// A run with a number that ten bits cannot hold is an error; else more runs than the table
/// has room for overflow it.
pub fn build_mask_map(map: &PixelIDMap) -> (res: Result<Vec<u8>, MaskError>)
    requires
        map@.wf(),
        5 * AVERAGE_ENTRIES_PER_ROW * map@.height <= usize::MAX,
    ensures
        !all_fit(map@.runs()) ==> res == Err::<Vec<u8>, MaskError>(MaskError::EntryOutOfRange),
        all_fit(map@.runs()) && map@.runs().len() > AVERAGE_ENTRIES_PER_ROW * map@.height ==> res
            == Err::<Vec<u8>, MaskError>(MaskError::MaskTableOverflow),
        all_fit(map@.runs()) && map@.runs().len() <= AVERAGE_ENTRIES_PER_ROW * map@.height
            ==> res is Ok,
        res matches Ok(table) ==> table@ == table_bytes(
            map@.runs(),
            AVERAGE_ENTRIES_PER_ROW * map@.height,
        ),
{
    let runs: Vec<MaskRunEntry> = extract_runs(map);
    if !runs_fit(&runs) {
        return Err(MaskError::EntryOutOfRange);
    }
    let height: usize = map.height();
    assert(26 * height <= 130 * height <= usize::MAX) by (nonlinear_arith)
        requires
            5 * AVERAGE_ENTRIES_PER_ROW * height <= usize::MAX,
            AVERAGE_ENTRIES_PER_ROW == 26,
            0 <= height,
    ;
    let capacity: usize = AVERAGE_ENTRIES_PER_ROW * height;
    assert(BYTES_PER_ENTRY * capacity == 130 * height) by (nonlinear_arith)
        requires
            capacity == 26 * height,
            BYTES_PER_ENTRY == 5,
    ;
    let total: usize = BYTES_PER_ENTRY * capacity;
    let mut output: Vec<u8> = vec![0u8; total];
    let mut byte_index: usize = 0;
    let mut n: usize = 0;
    while n < runs.len()
        invariant
            n <= runs@.len(),
            n <= capacity,
            capacity == 26 * map@.height,
            runs@ == map@.runs(),
            all_fit(runs@),
            byte_index == 5 * n,
            total == 5 * capacity,
            output@.len() == total,
            output@ == table_bytes(runs@.take(n as int), capacity as int),
        decreases runs@.len() - n,
    {
        let run: MaskRunEntry = runs[n];
        assert(runs@[n as int].fits());
        let ghost before = output@;
        match insert_mask_entry_bytes(
            &mut output,
            &mut byte_index,
            run.id,
            run.length,
            run.start_x,
            run.y,
        ) {
            Ok(_) => {},
            Err(e) => {
                return Err(e);
            },
        }
        n += 1;
        proof {
            let listed = runs@.take(n as int);
            let earlier = runs@.take(n - 1);
            assert(listed[n - 1] == run);
            assert forall|i: int| 0 <= i < total implies #[trigger] output@[i] == table_bytes(
                listed,
                capacity as int,
            )[i] by {
                if i < 5 * (n - 1) {
                    assert(earlier[i / 5] == listed[i / 5]);
                    assert(output@[i] == before[i]);
                } else if i < 5 * n {
                    assert(i / 5 == n - 1);
                    assert(i % 5 == i - 5 * (n - 1));
                } else {
                    assert(output@[i] == before[i]);
                }
            }
            assert(output@ =~= table_bytes(listed, capacity as int));
        }
    }
    assert(runs@.take(n as int) =~= runs@);
    Ok(output)
}

/// Whether `run` is a run among the first `n` pixels of a row: it lies in the row, every
/// pixel of it has its owner, and it goes as far as that owner does to the left and, within
/// the first `n` pixels, to the right.
pub open spec fn is_run_of(row: Seq<Option<u16>>, y: int, n: int, run: MaskRunEntry) -> bool {
    &&& run.y == y
    &&& run.length >= 1
    &&& run.start_x + run.length <= n
    &&& forall|x: int| run.start_x <= x < run.start_x + run.length ==> row[x] == Some(run.id)
    &&& (run.start_x == 0 || row[run.start_x - 1] != Some(run.id))
    &&& (run.start_x + run.length == n || row[run.start_x + run.length] != Some(run.id))
}

/// The runs found in a row are runs of that row, they come from left to right without
/// touching one another's pixels, and every pixel that has an owner lies in one of them.
pub proof fn lemma_row_runs(row: Seq<Option<u16>>, y: int, n: int)
    requires
        0 <= n <= row.len(),
        n <= usize::MAX,
        0 <= y <= usize::MAX,
    ensures
        forall|k: int|
            0 <= k < row_runs(row, y, n).len() ==> is_run_of(
                row,
                y,
                n,
                #[trigger] row_runs(row, y, n)[k],
            ),
        forall|k: int, m: int|
            0 <= k < m < row_runs(row, y, n).len() ==> (#[trigger] row_runs(row, y, n)[k]).start_x
                + row_runs(row, y, n)[k].length <= (#[trigger] row_runs(row, y, n)[m]).start_x,
        forall|x: int|
            0 <= x < n && (#[trigger] row[x]) is Some ==> exists|k: int|
                0 <= k < row_runs(row, y, n).len() && (#[trigger] row_runs(row, y, n)[k]).start_x
                    <= x < row_runs(row, y, n)[k].start_x + row_runs(row, y, n)[k].length,
    decreases n,
{
    if n > 0 {
        lemma_row_runs(row, y, n - 1);
        let before = row_runs(row, y, n - 1);
        let now = row_runs(row, y, n);
        match row[n - 1] {
            None => {
                assert forall|x: int| 0 <= x < n && (#[trigger] row[x]) is Some implies exists|
                    k: int,
                |
                    0 <= k < now.len() && (#[trigger] now[k]).start_x <= x < now[k].start_x
                        + now[k].length by {
                    let k = choose|k: int|
                        0 <= k < before.len() && (#[trigger] before[k]).start_x <= x
                            < before[k].start_x + before[k].length;
                    assert(now[k].start_x <= x);
                }
            },
            Some(id) => {
                if n >= 2 && row[n - 2] == Some(id) {
                    lemma_open_run(row, y, n - 1);
                    let last = before.len() - 1;
                    assert(is_run_of(row, y, n - 1, before[last]));
                    assert forall|k: int| 0 <= k < now.len() implies is_run_of(
                        row,
                        y,
                        n,
                        #[trigger] now[k],
                    ) by {
                        if k < last {
                            assert(is_run_of(row, y, n - 1, before[k]));
                            assert(before[k].start_x + before[k].length <= before[last].start_x);
                        }
                    }
                    assert forall|k: int, m: int| 0 <= k < m < now.len() implies (
                    #[trigger] now[k]).start_x + now[k].length <= (#[trigger] now[m]).start_x by {
                        assert(before[k].start_x + before[k].length <= before[m].start_x);
                    }
                    assert forall|x: int| 0 <= x < n && (#[trigger] row[x]) is Some implies exists|
                        k: int,
                    |
                        0 <= k < now.len() && (#[trigger] now[k]).start_x <= x < now[k].start_x
                            + now[k].length by {
                        if x < n - 1 {
                            let k = choose|k: int|
                                0 <= k < before.len() && (#[trigger] before[k]).start_x <= x
                                    < before[k].start_x + before[k].length;
                            assert(now[k].start_x <= x < now[k].start_x + now[k].length);
                        } else {
                            assert(now[last].start_x <= x < now[last].start_x + now[last].length);
                        }
                    }
                } else {
                    let fresh = now[now.len() - 1];
                    assert(fresh.start_x == n - 1 && fresh.length == 1 && fresh.id == id);
                    assert forall|k: int| 0 <= k < now.len() implies is_run_of(
                        row,
                        y,
                        n,
                        #[trigger] now[k],
                    ) by {
                        if k < before.len() {
                            assert(is_run_of(row, y, n - 1, before[k]));
                            let end = before[k].start_x + before[k].length;
                            if end == n - 1 {
                                assert(row[end - 1] == Some(before[k].id));
                            }
                        }
                    }
                    assert forall|k: int, m: int| 0 <= k < m < now.len() implies (
                    #[trigger] now[k]).start_x + now[k].length <= (#[trigger] now[m]).start_x by {
                        assert(is_run_of(row, y, n - 1, before[k]));
                        if m < before.len() {
                            assert(before[k].start_x + before[k].length <= before[m].start_x);
                        }
                    }
                    assert forall|x: int| 0 <= x < n && (#[trigger] row[x]) is Some implies exists|
                        k: int,
                    |
                        0 <= k < now.len() && (#[trigger] now[k]).start_x <= x < now[k].start_x
                            + now[k].length by {
                        if x < n - 1 {
                            let k = choose|k: int|
                                0 <= k < before.len() && (#[trigger] before[k]).start_x <= x
                                    < before[k].start_x + before[k].length;
                            assert(now[k].start_x <= x < now[k].start_x + now[k].length);
                        } else {
                            assert(now[now.len() - 1].start_x <= x);
                        }
                    }
                }
            },
        }
    }
}

} // verus!
