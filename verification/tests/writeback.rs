use deskutils::writeback::{kilobytes_line, parse_writeback_kb, writeback_unit, SizeUnit, WritebackError};

#[test]
fn parses_writeback_value() {
    let data = "MemTotal: 16384 kB\nWriteback: 2048 kB\n";
    let result = parse_writeback_kb(data.as_bytes()).unwrap();
    assert_eq!(result, 2048);
}

#[test]
fn errors_when_writeback_missing() {
    let data = "MemTotal: 16384 kB\n";
    let result = parse_writeback_kb(data.as_bytes());
    assert!(result.is_err());
}

#[test]
fn writeback_documented_example() {
    let input = b"Dirty: 0 kB\nWriteback: 1024 kB\nAnonPages: 0 kB";
    assert_eq!(parse_writeback_kb(&input[..]).unwrap(), 1024);
    assert_eq!(parse_writeback_kb(b"Writeback:"), Ok(0));
    assert_eq!(parse_writeback_kb(b"WritebackTmp: 5 kB\nWriteback: 7 kB"), Ok(7));
    assert_eq!(parse_writeback_kb(b"Writeback:     12x"), Ok(12));
    assert_eq!(parse_writeback_kb(b"Dirty: 1 kB"), Err(WritebackError::NotFound));
    assert_eq!(
        parse_writeback_kb(b"Writeback: 18446744073709551616 kB"),
        Ok(0)
    );
}

#[test]
fn writeback_units() {
    assert_eq!(writeback_unit(1048576), SizeUnit::Gigabytes);
    assert_eq!(writeback_unit(1048575), SizeUnit::Megabytes);
    assert_eq!(writeback_unit(1024), SizeUnit::Megabytes);
    assert_eq!(writeback_unit(1023), SizeUnit::Kilobytes);
    assert_eq!(kilobytes_line(512), "512 kB");
    assert_eq!(kilobytes_line(0), "0 kB");
}
