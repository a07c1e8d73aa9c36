use support::mask::{
    build_mask_map, entry_to_bytes, extract_runs, insert_mask_entry_bytes, runs_fit, MaskError,
    MaskRunEntry, PixelIDMap,
};

#[test]
fn entry_bytes_are_packed_low_bits_first() {
    assert_eq!(entry_to_bytes(1, 3, 0, 0), vec![0x01, 0x00, 0x00, 0xC0, 0x00]);
    assert_eq!(entry_to_bytes(2, 4, 5, 0), vec![0x02, 0x14, 0x00, 0x00, 0x01]);
    assert_eq!(entry_to_bytes(0x3ff, 0x3ff, 0x3ff, 0x3ff), vec![0xff; 5]);
    assert_eq!(entry_to_bytes(0x155, 0x2aa, 0x0f0, 0x30c), vec![0x55, 0xc1, 0xc3, 0xb0, 0xaa]);
}

#[test]
fn runs_that_ten_bits_cannot_hold_are_an_error() {
    let long = PixelIDMap::from_cells(1024, 1, vec![Some(1); 1024]).unwrap();
    assert_eq!(build_mask_map(&long).err(), Some(MaskError::EntryOutOfRange));
    let fits = PixelIDMap::from_cells(1023, 1, vec![Some(1); 1023]).unwrap();
    assert_eq!(build_mask_map(&fits).unwrap()[..5], [0x01, 0x00, 0x00, 0xC0, 0xff]);
    let mut far = vec![None; 1025];
    far[1024] = Some(1);
    let late = PixelIDMap::from_cells(1025, 1, far).unwrap();
    assert_eq!(build_mask_map(&late).err(), Some(MaskError::EntryOutOfRange));
    let mut low = vec![None; 1025];
    low[1024] = Some(1);
    let deep = PixelIDMap::from_cells(1, 1025, low).unwrap();
    assert_eq!(build_mask_map(&deep).err(), Some(MaskError::EntryOutOfRange));
    let big = PixelIDMap::from_cells(1, 1, vec![Some(1024)]).unwrap();
    assert_eq!(build_mask_map(&big).err(), Some(MaskError::EntryOutOfRange));
    let edge = PixelIDMap::from_cells(1, 1, vec![Some(1023)]).unwrap();
    assert_eq!(build_mask_map(&edge).unwrap()[..5], [0xff, 0x03, 0x00, 0x40, 0x00]);
    assert!(runs_fit(&extract_runs(&edge)));
    assert!(!runs_fit(&extract_runs(&big)));
}

#[test]
fn out_of_range_comes_before_overflow() {
    let mut cells = Vec::new();
    for i in 0..27u16 {
        cells.push(Some(2000 + i));
        cells.push(None);
    }
    let map = PixelIDMap::from_cells(54, 1, cells).unwrap();
    assert_eq!(build_mask_map(&map).err(), Some(MaskError::EntryOutOfRange));
}

#[test]
fn runs_of_one_row() {
    let cells = vec![
        Some(1),
        Some(1),
        Some(1),
        None,
        None,
        Some(2),
        Some(2),
        Some(2),
        Some(2),
        None,
    ];
    let map = PixelIDMap::from_cells(10, 1, cells).unwrap();
    let runs = extract_runs(&map);
    assert_eq!(
        runs,
        vec![
            MaskRunEntry { id: 1, start_x: 0, y: 0, length: 3 },
            MaskRunEntry { id: 2, start_x: 5, y: 0, length: 4 },
        ]
    );
}

#[test]
fn a_change_of_owner_starts_a_new_run() {
    let cells = vec![Some(7), Some(7), Some(8), Some(7)];
    let map = PixelIDMap::from_cells(4, 1, cells).unwrap();
    assert_eq!(
        extract_runs(&map),
        vec![
            MaskRunEntry { id: 7, start_x: 0, y: 0, length: 2 },
            MaskRunEntry { id: 8, start_x: 2, y: 0, length: 1 },
            MaskRunEntry { id: 7, start_x: 3, y: 0, length: 1 },
        ]
    );
}

#[test]
fn runs_do_not_span_rows() {
    let cells = vec![None, Some(3), Some(3), Some(3), Some(3), None];
    let map = PixelIDMap::from_cells(3, 2, cells).unwrap();
    assert_eq!(
        extract_runs(&map),
        vec![
            MaskRunEntry { id: 3, start_x: 1, y: 0, length: 2 },
            MaskRunEntry { id: 3, start_x: 0, y: 1, length: 2 },
        ]
    );
}

#[test]
fn table_lists_runs_and_pads_with_zero() {
    let cells = vec![
        Some(1),
        Some(1),
        Some(1),
        None,
        None,
        Some(2),
        Some(2),
        Some(2),
        Some(2),
        None,
    ];
    let map = PixelIDMap::from_cells(10, 1, cells).unwrap();
    let table = build_mask_map(&map).unwrap();
    assert_eq!(table.len(), 5 * 26);
    assert_eq!(&table[0..5], &[0x01, 0x00, 0x00, 0xC0, 0x00]);
    assert_eq!(&table[5..10], &[0x02, 0x14, 0x00, 0x00, 0x01]);
    assert!(table[10..].iter().all(|b| *b == 0));
}

#[test]
fn table_of_a_full_canvas_has_room_for_26_runs_per_row() {
    let map = PixelIDMap::new(720, 720).unwrap();
    let table = build_mask_map(&map).unwrap();
    assert_eq!(table.len(), 5 * 26 * 720);
    assert!(table.iter().all(|b| *b == 0));
}

#[test]
fn table_takes_exactly_its_capacity() {
    let mut cells = Vec::new();
    for i in 0..26u16 {
        cells.push(Some(i));
        cells.push(None);
    }
    let map = PixelIDMap::from_cells(52, 1, cells).unwrap();
    let table = build_mask_map(&map).unwrap();
    assert_eq!(table.len(), 130);
    assert_eq!(&table[125..130], entry_to_bytes(25, 1, 50, 0).as_slice());
}

#[test]
fn too_many_runs_overflow_the_table() {
    let mut cells = Vec::new();
    for i in 0..27u16 {
        cells.push(Some(i));
        cells.push(None);
    }
    let map = PixelIDMap::from_cells(54, 1, cells).unwrap();
    assert_eq!(build_mask_map(&map).err(), Some(MaskError::MaskTableOverflow));
}

#[test]
fn insert_writes_five_bytes_and_moves_on() {
    let mut output = vec![0xaau8; 12];
    let mut index = 5usize;
    assert!(insert_mask_entry_bytes(&mut output, &mut index, 2, 4, 5, 0).is_ok());
    assert_eq!(index, 10);
    assert_eq!(
        output,
        vec![0xaa, 0xaa, 0xaa, 0xaa, 0xaa, 0x02, 0x14, 0x00, 0x00, 0x01, 0xaa, 0xaa]
    );
    assert_eq!(
        insert_mask_entry_bytes(&mut output, &mut index, 2, 4, 5, 0),
        Err(MaskError::MaskTableOverflow)
    );
    assert_eq!(index, 10);
    assert_eq!(output[10..], [0xaa, 0xaa]);
    let mut start = 0usize;
    for (id, length, x, y) in [(1024u16, 1, 1, 1), (1, 1024, 1, 1), (1, 1, 1024, 1), (1, 1, 1, 1024)] {
        assert_eq!(
            insert_mask_entry_bytes(&mut output, &mut start, id, length, x, y),
            Err(MaskError::EntryOutOfRange)
        );
    }
    assert_eq!(start, 0);
    assert_eq!(output[..5], [0xaa; 5]);
}

#[test]
fn map_constructors_check_the_size() {
    assert!(PixelIDMap::from_cells(2, 2, vec![None; 3]).is_none());
    assert!(PixelIDMap::from_cells(2, 2, vec![None; 4]).is_some());
    assert!(PixelIDMap::new(usize::MAX, 2).is_none());
    let mut map = PixelIDMap::new(3, 2).unwrap();
    assert_eq!((map.width(), map.height(), map.len()), (3, 2, 6));
    map.set(4, Some(9));
    assert_eq!(map.get(4), Some(9));
    assert_eq!(map.get(3), None);
}
