use ai_reader::trailer::trim_trailing_record_data;

#[test]
fn no_flags_keep_the_whole_record() {
    assert_eq!(trim_trailing_record_data(b"", 0), 0);
    assert_eq!(trim_trailing_record_data(b"hello", 0), 5);
    assert_eq!(trim_trailing_record_data(&[0x83, 0x81, 0xff], 0), 3);
    assert_eq!(trim_trailing_record_data(&vec![7u8; 4096], 0), 4096);
}

#[test]
fn empty_record_stays_empty() {
    assert_eq!(trim_trailing_record_data(b"", 0xffff), 0);
    assert_eq!(trim_trailing_record_data(b"", 1), 0);
}

#[test]
fn bit_zero_takes_one_byte() {
    assert_eq!(trim_trailing_record_data(b"hello", 1), 4);
    assert_eq!(trim_trailing_record_data(b"h", 1), 0);
}

#[test]
fn one_entry_is_taken_with_its_length_byte() {
    // the length byte 0x83 ends the integer at once: value 3
    let rec = [b'h', b'e', b'l', b'l', b'o', 0, 0, 0x83];
    assert_eq!(trim_trailing_record_data(&rec, 0b10), 4);
    assert_eq!(trim_trailing_record_data(&rec, 0x8000), 4);
    // with bit 0 as well, one more byte goes
    assert_eq!(trim_trailing_record_data(&rec, 0b11), 3);
}

#[test]
fn length_of_two_groups() {
    // read backward: 0x00 gives 0, then 0x81 gives 1 << 7 and ends: 128
    let mut rec = vec![b'x'; 198];
    rec.push(0x81);
    rec.push(0x00);
    assert_eq!(trim_trailing_record_data(&rec, 0b100), 198 - 128);
}

#[test]
fn two_entries_are_taken_one_after_the_other() {
    // first entry: 0x81 -> 1, leaves 9 - 1 - 1 = 7; second: 0x82 at index 6 -> 2, leaves 4
    let rec = [b'a', b'b', b'c', b'd', 0, 0, 0x82, 0, 0x81];
    assert_eq!(trim_trailing_record_data(&rec, 0b110), 4);
    assert_eq!(trim_trailing_record_data(&rec, 0b010), 7);
    assert_eq!(trim_trailing_record_data(&rec, 0b111), 3);
}

#[test]
fn length_beyond_the_record_stops_at_zero() {
    assert_eq!(trim_trailing_record_data(&[0xff], 0b10), 0);
    assert_eq!(trim_trailing_record_data(&[b'a', b'b', 0xff], 0b10), 0);
    assert_eq!(trim_trailing_record_data(&[b'a', b'b', 0x82], 0b10), 0);
    assert_eq!(trim_trailing_record_data(&[b'a', b'b', b'c', 0x82], 0b10), 1);
}

#[test]
fn length_scan_stops_after_five_groups() {
    // no byte ends the integer: five are read, the sixth stays
    let rec = [0u8, 0, 0, 0, 0, 0];
    assert_eq!(trim_trailing_record_data(&rec, 0b10), 1);
    let rec = [0u8, 0, 0, 0, 0, 0, 0];
    assert_eq!(trim_trailing_record_data(&rec, 0b10), 2);
    // the fifth group counts: 1 << 28 is more than what is left
    let rec = [9u8, 9, 1, 0, 0, 0, 0];
    assert_eq!(trim_trailing_record_data(&rec, 0b10), 0);
}

#[test]
fn record_shorter_than_its_length_field() {
    assert_eq!(trim_trailing_record_data(&[0x00, 0x00], 0b10), 0);
    assert_eq!(trim_trailing_record_data(&[0x01], 0b110), 0);
}
