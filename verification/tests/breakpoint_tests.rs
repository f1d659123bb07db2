use nix::errno::Errno;
use nix::unistd::Pid;
use tracedbg::breakpoint::{bp_storage, breakpoint, table_error, TRAP_BYTE};

fn child() -> Pid {
    Pid::from_raw(4321)
}

fn armed(addr: usize, word: u64) -> breakpoint {
    let mut bp = breakpoint::New(child(), addr);
    bp.enable(Ok(word)).unwrap();
    bp
}

#[test]
fn new_breakpoint_is_disarmed() {
    let bp = breakpoint::New(child(), 0x401000);
    assert_eq!(bp.addr, 0x401000);
    assert_eq!(bp.pid, child());
    assert!(!bp.enabled);
    assert_eq!(bp.saved_data, None);
}

#[test]
fn trap_byte_is_int3() {
    assert_eq!(TRAP_BYTE, 0xcc);
}

#[test]
fn arming_patches_the_low_byte() {
    let mut bp = breakpoint::New(child(), 0x401000);
    let written = bp.enable(Ok(0x1122_3344_5566_7788));
    assert_eq!(written, Ok(0x1122_3344_5566_77cc));
    assert!(bp.enabled);
    assert_eq!(bp.saved_data, Some(0x88));
    assert_eq!(bp.addr, 0x401000);
}

#[test]
fn arming_fails_with_the_error_of_the_read() {
    let mut bp = breakpoint::New(child(), 0x401000);
    assert_eq!(bp.enable(Err(Errno::EIO)), Err(Errno::EIO));
    assert!(!bp.enabled);
    assert_eq!(bp.saved_data, None);
}

#[test]
fn disarming_puts_the_saved_byte_back() {
    let mut bp = armed(0x401000, 0x1122_3344_5566_7788);
    let written = bp.disable(Ok(0x1122_3344_5566_77cc));
    assert_eq!(written, Ok(0x1122_3344_5566_7788));
    assert!(!bp.enabled);
    assert_eq!(bp.saved_data, Some(0x88));
}

#[test]
fn disarming_keeps_the_other_bytes_of_the_word_read() {
    let mut bp = armed(0x401000, 0x88);
    assert_eq!(bp.disable(Ok(0xaaaa_bbbb_cccc_ddcc)), Ok(0xaaaa_bbbb_cccc_dd88));
}

#[test]
fn disarming_fails_with_the_error_of_the_read() {
    let mut bp = armed(0x401000, 0x90);
    assert_eq!(bp.disable(Err(Errno::ESRCH)), Err(Errno::ESRCH));
    assert!(bp.enabled);
}

#[test]
fn arming_twice_keeps_the_first_saved_byte() {
    let mut bp = armed(0x401000, 0x1234);
    assert_eq!(bp.enable(Ok(0x12cc)), Ok(0x12cc));
    assert_eq!(bp.saved_data, Some(0x34));
    assert_eq!(bp.disable(Ok(0x12cc)), Ok(0x1234));
}

#[test]
fn disarming_a_disarmed_breakpoint_changes_no_memory() {
    let mut fresh = breakpoint::New(child(), 0x401000);
    assert_eq!(fresh.disable(Ok(0x55)), Ok(0x55));
    let mut bp = armed(0x401000, 0x1234);
    bp.disable(Ok(0x12cc)).unwrap();
    assert_eq!(bp.disable(Ok(0x9999)), Ok(0x9999));
    assert!(!bp.enabled);
}

#[test]
fn arm_then_disarm_restores_any_word() {
    for word in [0u64, 0xcc, 0xff, 0x0123_4567_89ab_cdef, u64::MAX] {
        let mut bp = breakpoint::New(child(), 0x1000);
        let patched = bp.enable(Ok(word)).unwrap();
        assert_eq!(patched & 0xff, 0xcc);
        assert_eq!(patched >> 8, word >> 8);
        assert_eq!(bp.disable(Ok(patched)), Ok(word));
    }
}

#[test]
fn empty_table() {
    let table = bp_storage::New();
    assert_eq!(table.len(), 0);
    assert!(!table.contains(0));
    assert_eq!(table.get(0), None);
    assert_eq!(table.find_by_addr(0x401000), None);
    assert!(table.iter_live().is_empty());
}

#[test]
fn insert_hands_out_the_next_index() {
    let mut table = bp_storage::New();
    assert_eq!(table.insert(armed(0x401000, 0)), Ok(0));
    assert_eq!(table.insert(armed(0x401010, 0)), Ok(1));
    assert_eq!(table.len(), 2);
    assert!(table.contains(0x401000));
    assert!(table.contains(0x401010));
    assert!(!table.contains(0x401020));
    assert_eq!(table.find_by_addr(0x401010), Some(1));
}

#[test]
fn duplicate_address_is_rejected() {
    let mut table = bp_storage::New();
    assert_eq!(table.insert(armed(0x401000, 0x11)), Ok(0));
    assert_eq!(table.insert(armed(0x401000, 0x22)), Err(table_error::DuplicateAddress));
    assert_eq!(table.len(), 1);
    let rows = table.iter_live();
    assert_eq!(rows.len(), 1);
    assert_eq!(rows[0].0, 0);
    assert_eq!(rows[0].1.saved_data, Some(0x11));
}

#[test]
fn deleted_index_is_not_reused() {
    let mut table = bp_storage::New();
    table.insert(armed(0x401000, 0x55)).unwrap();
    table.insert(armed(0x401010, 0x66)).unwrap();
    assert_eq!(table.delete(0, Ok(0xcc)), Ok(0x55));
    assert_eq!(table.insert(armed(0x401020, 0x77)), Ok(2));
    let rows = table.iter_live();
    let indices: Vec<usize> = rows.iter().map(|row| row.0).collect();
    assert_eq!(indices, vec![1, 2]);
    assert_eq!(rows[0].1.addr, 0x401010);
    assert_eq!(rows[1].1.addr, 0x401020);
    assert_eq!(table.len(), 3);
    assert_eq!(table.get(0), None);
}

#[test]
fn deleted_address_is_free_again() {
    let mut table = bp_storage::New();
    table.insert(armed(0x401000, 0)).unwrap();
    table.delete(0, Ok(0xcc)).unwrap();
    assert!(!table.contains(0x401000));
    assert_eq!(table.find_by_addr(0x401000), None);
    assert_eq!(table.insert(armed(0x401000, 0)), Ok(1));
    assert_eq!(table.find_by_addr(0x401000), Some(1));
}

#[test]
fn address_zero_is_an_address_like_any_other() {
    let mut table = bp_storage::New();
    assert!(!table.contains(0));
    table.insert(armed(0x401000, 0)).unwrap();
    table.delete(0, Ok(0xcc)).unwrap();
    assert!(!table.contains(0));
    assert_eq!(table.insert(armed(0, 0)), Ok(1));
    assert!(table.contains(0));
}

#[test]
fn operations_on_a_missing_slot() {
    let mut table = bp_storage::New();
    table.insert(armed(0x401000, 0)).unwrap();
    assert_eq!(table.enable(1, Ok(0)), Err(table_error::NotFound));
    assert_eq!(table.disable(7, Ok(0)), Err(table_error::NotFound));
    assert_eq!(table.delete(usize::MAX, Ok(0)), Err(table_error::NotFound));
    table.delete(0, Ok(0xcc)).unwrap();
    assert_eq!(table.enable(0, Ok(0)), Err(table_error::NotFound));
    assert_eq!(table.disable(0, Ok(0)), Err(table_error::NotFound));
    assert_eq!(table.delete(0, Ok(0)), Err(table_error::NotFound));
}

#[test]
fn a_failed_read_changes_no_slot() {
    let mut table = bp_storage::New();
    table.insert(armed(0x401000, 0x31)).unwrap();
    assert_eq!(table.disable(0, Err(Errno::EFAULT)), Err(table_error::Trace(Errno::EFAULT)));
    assert_eq!(table.enable(0, Err(Errno::EFAULT)), Err(table_error::Trace(Errno::EFAULT)));
    assert_eq!(table.delete(0, Err(Errno::EFAULT)), Err(table_error::Trace(Errno::EFAULT)));
    let bp = table.get(0).unwrap();
    assert!(bp.enabled);
    assert_eq!(bp.saved_data, Some(0x31));
}

#[test]
fn disable_and_enable_by_index() {
    let mut table = bp_storage::New();
    table.insert(armed(0x401000, 0x4831)).unwrap();
    assert_eq!(table.disable(0, Ok(0x48cc)), Ok(0x4831));
    assert!(!table.get(0).unwrap().enabled);
    assert!(table.contains(0x401000));
    assert_eq!(table.enable(0, Ok(0x4831)), Ok(0x48cc));
    assert!(table.get(0).unwrap().enabled);
    assert_eq!(table.get(0).unwrap().saved_data, Some(0x31));
}

#[test]
fn live_rows_come_in_index_order() {
    let mut table = bp_storage::New();
    for i in 0..5usize {
        table.insert(armed(0x1000 + 16 * i, i as u64)).unwrap();
    }
    table.delete(1, Ok(0xcc)).unwrap();
    table.delete(3, Ok(0xcc)).unwrap();
    let rows = table.iter_live();
    let indices: Vec<usize> = rows.iter().map(|row| row.0).collect();
    assert_eq!(indices, vec![0, 2, 4]);
    for (idx, bp) in rows {
        assert_eq!(bp.addr, 0x1000 + 16 * idx);
    }
}
