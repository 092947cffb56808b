// Calibration segment engine: atomic downloads, bracketed transactions
// and page selection round trips.

use xcp_lite::CalSeg;
use xcp_lite::CalSegError;
use xcp_lite::CAL_PAGE_FLASH;
use xcp_lite::CAL_PAGE_RAM;

#[test]
fn segment_creation_copies_the_default() {
    let seg = CalSeg::new("s", 0, vec![0x55, 0x00, 0x00, 0x00]);
    assert_eq!(seg.get_name(), "s");
    assert_eq!(seg.get_index(), 0);
    assert_eq!(seg.size(), 4);
    assert_eq!(seg.get_ecu_page(), CAL_PAGE_RAM);
    assert_eq!(seg.get_xcp_page(), CAL_PAGE_RAM);
    let guard = seg.read_lock();
    assert_eq!(guard.len(), 4);
    assert_eq!(guard.get(0), 0x55);
    assert_eq!(guard.bytes().as_slice(), &[0x55, 0x00, 0x00, 0x00]);
}

#[test]
fn atomic_download_writes_the_full_range() {
    // a single download replaces every byte of its range and no other
    let mut seg = CalSeg::new("s", 0, vec![1, 2, 3, 4, 5, 6, 7, 8]);
    seg.download(2, &[0xAA, 0xBB, 0xCC]).unwrap();
    let guard = seg.read_lock();
    assert_eq!(guard.bytes().as_slice(), &[1, 2, 0xAA, 0xBB, 0xCC, 6, 7, 8]);
}

#[test]
fn download_out_of_range_is_denied() {
    let mut seg = CalSeg::new("s", 0, vec![0; 4]);
    assert_eq!(seg.download(2, &[1, 2, 3]), Err(CalSegError::AccessDenied));
    assert_eq!(seg.download(4, &[1]), Err(CalSegError::AccessDenied));
    // the segment is unchanged after a denied write
    assert_eq!(seg.read_lock().bytes().as_slice(), &[0, 0, 0, 0]);
    // a zero length write at the end is within range
    assert_eq!(seg.download(4, &[]), Ok(()));
}

#[test]
fn bracketed_writes_publish_together() {
    // two downloads inside a transaction become observable only at end
    let mut seg = CalSeg::new("s", 0, vec![0, 0, 0, 0]);
    seg.modify_begin();
    seg.download(0, &[7, 0]).unwrap();
    // a reader between begin and end sees the pre-begin state
    assert_eq!(seg.read_lock().bytes().as_slice(), &[0, 0, 0, 0]);
    seg.download(2, &[8, 0]).unwrap();
    assert_eq!(seg.read_lock().bytes().as_slice(), &[0, 0, 0, 0]);
    seg.modify_end();
    // both writes appear together
    assert_eq!(seg.read_lock().bytes().as_slice(), &[7, 0, 8, 0]);
}

#[test]
fn consistent_pair_invariant_holds_under_transactions() {
    // two 16-bit fields with the invariant b == a + 1, written 1000
    // times inside transactions: a reader polling between the commands
    // never observes a mixed pair
    let mut seg = CalSeg::new("s", 0, vec![0, 0, 1, 0]);
    for i in 0u16..1000 {
        let a = i.to_le_bytes();
        let b = (i + 1).to_le_bytes();
        seg.modify_begin();
        seg.download(0, &a).unwrap();
        // poll mid-transaction
        let g = seg.read_lock();
        let ra = u16::from_le_bytes([g.get(0), g.get(1)]);
        let rb = u16::from_le_bytes([g.get(2), g.get(3)]);
        assert_eq!(rb, ra + 1);
        drop(g);
        seg.download(2, &b).unwrap();
        seg.modify_end();
        let g = seg.read_lock();
        let ra = u16::from_le_bytes([g.get(0), g.get(1)]);
        let rb = u16::from_le_bytes([g.get(2), g.get(3)]);
        assert_eq!(rb, ra + 1);
        assert_eq!(ra, i);
    }
}

#[test]
fn page_swap_round_trip_restores_values() {
    let mut seg = CalSeg::new("s", 0, vec![0x55, 1, 2, 3]);
    seg.download(0, &[0xAA]).unwrap();
    assert_eq!(seg.read_lock().get(0), 0xAA);

    // switch the application view to the default page and back
    seg.set_ecu_page(CAL_PAGE_FLASH).unwrap();
    assert_eq!(seg.read_lock().get(0), 0x55);
    seg.set_ecu_page(CAL_PAGE_RAM).unwrap();
    // every cell carries its pre-swap value again
    assert_eq!(seg.read_lock().bytes().as_slice(), &[0xAA, 1, 2, 3]);

    assert_eq!(seg.set_ecu_page(2), Err(CalSegError::PageNotValid));
    assert_eq!(seg.set_xcp_page(9), Err(CalSegError::PageNotValid));
}

#[test]
fn read_range_honors_the_page_selector() {
    let mut seg = CalSeg::new("s", 0, vec![0x11, 0x22]);
    seg.download(0, &[0x33]).unwrap();
    assert_eq!(seg.read_range(0, 2, CAL_PAGE_RAM).unwrap(), vec![0x33, 0x22]);
    assert_eq!(
        seg.read_range(0, 2, CAL_PAGE_FLASH).unwrap(),
        vec![0x11, 0x22]
    );
    assert_eq!(seg.read_range(1, 2, CAL_PAGE_RAM), Err(CalSegError::AccessDenied));
    assert_eq!(seg.read_range(0, 1, 2), Err(CalSegError::PageNotValid));
}

#[test]
fn snapshot_save_and_restore() {
    let mut seg = CalSeg::new("s", 0, vec![0, 0, 0]);
    seg.download(0, &[9, 8, 7]).unwrap();
    let snap = seg.freeze_to();
    assert_eq!(snap, vec![9, 8, 7]);
    seg.download(0, &[0, 0, 0]).unwrap();
    seg.restore_from(&snap).unwrap();
    assert_eq!(seg.read_lock().bytes().as_slice(), &[9, 8, 7]);
    assert_eq!(seg.restore_from(&[1, 2]), Err(CalSegError::AccessDenied));
}

#[test]
fn application_writes_through_set_byte() {
    let mut seg = CalSeg::new("s", 0, vec![0, 0]);
    seg.set_byte(1, 0x42);
    assert_eq!(seg.read_lock().bytes().as_slice(), &[0, 0x42]);
}
