use tracedbg::misc::regs_to_dict;
use tracedbg::registers::{Register, RegisterBank};
use nix::unistd::Pid;
use tracedbg::trace::{
    addr_mapping, get_heap_and_stack, maps_path, proc_maps_path, snapshot_path, Trace,
};

const MAPS: &str = "\
00400000-00401000 r--p 00000000 08:01 1234                               /tmp/a.out
00401000-00402000 r-xp 00001000 08:01 1234                               /tmp/a.out
00404000-00405000 rw-p 00003000 08:01 1234                               /tmp/a.out
01b2c000-01b4d000 rw-p 00000000 00:00 0                                  [heap]
7ffff7dd0000-7ffff7df2000 r--p 00000000 08:01 99                         /usr/lib/libc.so.6
7ffffffde000-7ffffffff000 rw-p 00000000 00:00 0                          [stack]
ffffffffff600000-ffffffffff601000 --xp 00000000 00:00 0                  [vsyscall]
";

#[test]
fn new_snapshot_is_empty() {
    let trace = Trace::New();
    assert!(trace.get_stack().is_empty());
    assert!(trace.get_heap().is_empty());
    assert!(!trace.get_trace_regs().is_complete());
    assert_eq!(trace.get_trace_regs().get(Register::Rax), None);
}

#[test]
fn words_are_appended_in_order() {
    let mut trace = Trace::New();
    trace.stack_append(1);
    trace.heap_append(10);
    trace.stack_append(2);
    trace.heap_append(20);
    trace.stack_append(3);
    assert_eq!(trace.get_stack(), &vec![1, 2, 3]);
    assert_eq!(trace.get_heap(), &vec![10, 20]);
}

#[test]
fn registers_of_a_snapshot() {
    let mut bank = RegisterBank::zeroed();
    bank.rax = 0x41;
    bank.rip = 0x401007;
    let mut trace = Trace::New();
    trace.stack_append(9);
    trace.set_trace_regs(regs_to_dict(bank));
    assert!(trace.get_trace_regs().is_complete());
    assert_eq!(trace.get_trace_regs().get(Register::Rax), Some(0x41));
    assert_eq!(trace.get_trace_regs().get(Register::Rip), Some(0x401007));
    assert_eq!(trace.get_stack(), &vec![9]);
}

#[test]
fn copy_holds_the_same() {
    let mut trace = Trace::New();
    trace.stack_append(5);
    trace.heap_append(6);
    trace.set_trace_regs(regs_to_dict(RegisterBank::zeroed()));
    let copy = trace.copy();
    assert_eq!(copy, trace);
}

#[test]
fn heap_and_stack_of_a_map() {
    let regions = get_heap_and_stack(MAPS);
    assert_eq!(
        regions,
        vec![
            addr_mapping::Heap(0x01b2c000, 0x01b4d000),
            addr_mapping::Stack(0x7ffffffde000, 0x7ffffffff000),
        ]
    );
}

#[test]
fn regions_come_in_the_order_of_the_lines() {
    let text = "10-20 [stack]\n30-40 [heap]\n50-60 [heap]\n70-80 [stack]";
    assert_eq!(
        get_heap_and_stack(text),
        vec![
            addr_mapping::Stack(0x10, 0x20),
            addr_mapping::Heap(0x30, 0x40),
            addr_mapping::Heap(0x50, 0x60),
            addr_mapping::Stack(0x70, 0x80),
        ]
    );
}

#[test]
fn empty_and_unclassified_maps() {
    assert!(get_heap_and_stack("").is_empty());
    assert!(get_heap_and_stack("\n\n").is_empty());
    assert!(get_heap_and_stack("00400000-00401000 r-xp 0 0 0 /bin/true\n").is_empty());
}

#[test]
fn a_line_that_names_both_is_a_stack() {
    assert_eq!(get_heap_and_stack("a-b heap stack"), vec![addr_mapping::Stack(0xa, 0xb)]);
    assert_eq!(get_heap_and_stack("a-b /tmp/stackheap"), vec![addr_mapping::Stack(0xa, 0xb)]);
}

#[test]
fn the_word_may_stand_anywhere_in_the_line() {
    assert_eq!(get_heap_and_stack("1-2 /home/heapster/x"), vec![addr_mapping::Heap(1, 2)]);
    assert_eq!(get_heap_and_stack("1-2 [stack:1234]"), vec![addr_mapping::Stack(1, 2)]);
    assert!(get_heap_and_stack("1-2 [Stack]").is_empty());
    assert!(get_heap_and_stack("1-2 [hea p]").is_empty());
}

#[test]
fn lines_whose_range_cannot_be_read_are_passed_over() {
    let text = "zz-10 [heap]\n10 [heap]\n10- [heap]\n-10 [heap]\n10-20-30 [heap]\n[heap]\n 10-20 [heap]\n20-30 [heap]\n";
    assert_eq!(get_heap_and_stack(text), vec![addr_mapping::Heap(0x20, 0x30)]);
}

#[test]
fn a_range_too_large_for_an_address_is_passed_over() {
    assert!(get_heap_and_stack("10000000000000000-20000000000000000 [heap]").is_empty());
    assert_eq!(
        get_heap_and_stack("0-ffffffffffffffff [heap]"),
        vec![addr_mapping::Heap(0, usize::MAX)]
    );
}

#[test]
fn the_last_line_needs_no_newline() {
    assert_eq!(get_heap_and_stack("1-2 [heap]\n3-4 [stack]"), get_heap_and_stack("1-2 [heap]\n3-4 [stack]\n"));
    assert_eq!(get_heap_and_stack("3-4 [stack]"), vec![addr_mapping::Stack(3, 4)]);
}

#[test]
fn words_of_a_region() {
    assert_eq!(addr_mapping::Stack(0x1000, 0x2000).words(), 512);
    assert_eq!(addr_mapping::Heap(0x1000, 0x1008).words(), 1);
    assert_eq!(addr_mapping::Heap(0x1000, 0x100f).words(), 1);
    assert_eq!(addr_mapping::Heap(0x1000, 0x1007).words(), 0);
    assert_eq!(addr_mapping::Heap(0x1000, 0x1000).words(), 0);
    assert_eq!(addr_mapping::Heap(0x2000, 0x1000).words(), 0);
    assert_eq!(addr_mapping::Stack(0x10, 0x20).start(), 0x10);
    assert_eq!(addr_mapping::Stack(0x10, 0x20).end(), 0x20);
    assert!(addr_mapping::Stack(0, 0).is_stack());
    assert!(!addr_mapping::Heap(0, 0).is_stack());
}

#[test]
fn a_region_that_ends_before_it_starts_is_passed_over() {
    assert!(get_heap_and_stack("20-10 [heap]\n10-10 [stack]\n").is_empty());
    assert_eq!(get_heap_and_stack("10-11 [heap]"), vec![addr_mapping::Heap(0x10, 0x11)]);
}

#[test]
fn paths_of_the_files() {
    let path: String = proc_maps_path("1234").iter().collect();
    assert_eq!(path, "/proc/1234/maps");
    let path: String = proc_maps_path("").iter().collect();
    assert_eq!(path, "/proc//maps");
    let path: String = maps_path(Pid::from_raw(31337)).iter().collect();
    assert_eq!(path, "/proc/31337/maps");
    let path: String = snapshot_path().iter().collect();
    assert_eq!(path, "trace");
}
