use micron::window::{ReadRequest, ReaderConfig, SMALL_FILE_THRESHOLD, WINDOW_SIZE};

#[test]
fn default_sizes_are_the_constants() {
    let config = ReaderConfig::default();
    assert_eq!(SMALL_FILE_THRESHOLD, 5_000_000);
    assert_eq!(WINDOW_SIZE, 10_000);
    assert_eq!(config.small_file_threshold, 5_000_000);
    assert_eq!(config.window_size, 10_000);
    assert_eq!(config, ReaderConfig::new(5_000_000, 10_000));
}

#[test]
fn new_keeps_the_sizes_apart() {
    let config = ReaderConfig::new(7, 3);
    assert_eq!(config.small_file_threshold, 7);
    assert_eq!(config.window_size, 3);
}

#[test]
fn small_file_is_read_whole() {
    let config = ReaderConfig::default();
    assert_eq!(config.plan_open(10), ReadRequest { offset: 0, len: 10 });
    assert_eq!(config.plan_open(0), ReadRequest { offset: 0, len: 0 });
    assert_eq!(config.plan_open(4_999_999), ReadRequest { offset: 0, len: 4_999_999 });
}

#[test]
fn large_file_is_read_by_its_first_window() {
    let config = ReaderConfig::default();
    assert_eq!(config.plan_open(5_000_000), ReadRequest { offset: 0, len: 10_000 });
    assert_eq!(config.plan_open(20_000_000), ReadRequest { offset: 0, len: 10_000 });
    assert_eq!(config.plan_open(u64::MAX), ReadRequest { offset: 0, len: 10_000 });
}

#[test]
fn large_file_shorter_than_the_window_is_read_to_its_end() {
    let config = ReaderConfig::new(5, 100);
    assert_eq!(config.plan_open(50), ReadRequest { offset: 0, len: 50 });
    assert_eq!(config.plan_open(100), ReadRequest { offset: 0, len: 100 });
    assert_eq!(config.plan_open(101), ReadRequest { offset: 0, len: 100 });
}

#[test]
fn window_in_the_middle_is_full() {
    let config = ReaderConfig::default();
    assert_eq!(
        config.plan_window(20_000_000, 1_234_567),
        ReadRequest { offset: 1_234_567, len: 10_000 }
    );
    assert_eq!(
        config.plan_window(20_000_000, 19_990_000),
        ReadRequest { offset: 19_990_000, len: 10_000 }
    );
}

#[test]
fn window_near_the_end_is_cut() {
    let config = ReaderConfig::default();
    assert_eq!(
        config.plan_window(20_000_000, 19_995_000),
        ReadRequest { offset: 19_995_000, len: 5_000 }
    );
    assert_eq!(
        config.plan_window(20_000_000, 19_999_999),
        ReadRequest { offset: 19_999_999, len: 1 }
    );
}

#[test]
fn window_at_the_end_is_empty() {
    let config = ReaderConfig::default();
    assert_eq!(
        config.plan_window(20_000_000, 20_000_000),
        ReadRequest { offset: 20_000_000, len: 0 }
    );
    assert_eq!(config.plan_window(0, 0), ReadRequest { offset: 0, len: 0 });
}

#[test]
fn window_of_size_zero_is_always_empty() {
    let config = ReaderConfig::new(0, 0);
    assert_eq!(config.plan_open(1_000), ReadRequest { offset: 0, len: 0 });
    assert_eq!(config.plan_window(1_000, 10), ReadRequest { offset: 10, len: 0 });
}
