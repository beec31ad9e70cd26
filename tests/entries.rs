use clap_interactive::entries::EntryDriver;

#[test]
fn entries_are_kept_in_order_until_declined() {
    let mut d: EntryDriver<u32> = EntryDriver::new();
    assert!(d.answer(true));
    d.add(1);
    assert!(d.answer(true));
    d.add(2);
    assert!(!d.answer(false));
    assert!(d.done);
    assert!(!d.answer(true));
    assert_eq!(d.entries, vec![1, 2]);
}

#[test]
fn declining_at_once_gives_no_entries() {
    let mut d: EntryDriver<String> = EntryDriver::new();
    assert!(!d.answer(false));
    assert!(d.entries.is_empty());
}
