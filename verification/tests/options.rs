use bytes::Bytes;
use tftp::options::{OptionBuilder, Options};

fn parse(bytes: &[u8]) -> Options {
    let mut buf = Bytes::copy_from_slice(bytes);
    Options::from(&mut buf)
}

#[test]
fn default_options_have_the_defaults() {
    let options = Options::default();
    assert!(!options.has_option());
    assert_eq!(512, options.blksize());
    assert_eq!(10, options.timeout());
    assert_eq!(0, options.tsize());
    assert_eq!(1, options.windowsize());
}

#[test]
fn builder_sets_each_field() {
    let options = OptionBuilder::default()
        .blksize(1024)
        .timeout(3)
        .tsize()
        .windowsize(4)
        .build();
    assert!(options.has_option());
    assert_eq!(1024, options.blksize());
    assert_eq!(3, options.timeout());
    assert_eq!(0, options.tsize());
    assert_eq!(4, options.windowsize());
}

#[test]
fn has_option_for_a_single_field() {
    assert!(OptionBuilder::default().blksize(8).build().has_option());
    assert!(OptionBuilder::default().timeout(1).build().has_option());
    assert!(OptionBuilder::default().tsize().build().has_option());
    assert!(OptionBuilder::default().windowsize(1).build().has_option());
}

#[test]
fn as_bytes_lists_the_present_options_in_order() {
    let options = OptionBuilder::default()
        .blksize(1024)
        .timeout(3)
        .tsize()
        .windowsize(4)
        .build();
    assert_eq!(
        &b"blksize\x001024\x00timeout\x003\x00tsize\x000\x00windowsize\x004\x00"[..],
        options.as_bytes().as_ref()
    );
}

#[test]
fn as_bytes_of_no_option_is_empty() {
    assert_eq!(0, Options::default().as_bytes().len());
}

#[test]
fn as_bytes_of_the_largest_values() {
    let mut options = OptionBuilder::default()
        .blksize(65535)
        .timeout(255)
        .tsize()
        .windowsize(65535)
        .build();
    options.set_tsize(u64::MAX);
    assert_eq!(
        &b"blksize\x0065535\x00timeout\x00255\x00tsize\x0018446744073709551615\x00windowsize\x0065535\x00"[..],
        options.as_bytes().as_ref()
    );
}

#[test]
fn parse_reads_all_four_options() {
    let options = parse(b"blksize\x001024\x00timeout\x003\x00tsize\x00777\x00windowsize\x004\x00");
    assert_eq!(1024, options.blksize());
    assert_eq!(3, options.timeout());
    assert_eq!(777, options.tsize());
    assert_eq!(4, options.windowsize());
}

#[test]
fn parse_leaves_the_buffer_as_it_was() {
    let mut buf = Bytes::copy_from_slice(b"blksize\x008\x00");
    let options = Options::from(&mut buf);
    assert_eq!(8, options.blksize());
    assert_eq!(&b"blksize\x008\x00"[..], buf.as_ref());
}

#[test]
fn parse_matches_keys_without_regard_to_case() {
    let options = parse(b"BlkSize\x002048\x00TIMEOUT\x005\x00TSize\x009\x00WINDOWSIZE\x007\x00");
    assert_eq!(2048, options.blksize());
    assert_eq!(5, options.timeout());
    assert_eq!(9, options.tsize());
    assert_eq!(7, options.windowsize());
}

#[test]
fn parse_ignores_unknown_keys() {
    let options = parse(b"multicast\x001\x00windowsize\x003\x00");
    assert_eq!(512, options.blksize());
    assert_eq!(3, options.windowsize());
    assert!(options.has_option());
    let none = parse(b"multicast\x001\x00");
    assert!(!none.has_option());
}

#[test]
fn parse_ignores_values_out_of_range() {
    assert!(!parse(b"blksize\x007\x00").has_option());
    assert!(!parse(b"blksize\x0065465\x00").has_option());
    assert!(!parse(b"blksize\x0099999\x00").has_option());
    assert!(!parse(b"timeout\x000\x00").has_option());
    assert!(!parse(b"timeout\x00256\x00").has_option());
    assert!(!parse(b"windowsize\x000\x00").has_option());
    assert!(!parse(b"windowsize\x0065536\x00").has_option());
    assert!(!parse(b"tsize\x0018446744073709551616\x00").has_option());
}

#[test]
fn parse_takes_the_ends_of_each_range() {
    assert_eq!(8, parse(b"blksize\x008\x00").blksize());
    assert_eq!(65464, parse(b"blksize\x0065464\x00").blksize());
    assert_eq!(1, parse(b"timeout\x001\x00").timeout());
    assert_eq!(255, parse(b"timeout\x00255\x00").timeout());
    assert_eq!(65535, parse(b"windowsize\x0065535\x00").windowsize());
    assert_eq!(u64::MAX, parse(b"tsize\x0018446744073709551615\x00").tsize());
    assert!(parse(b"tsize\x000\x00").has_option());
}

#[test]
fn parse_ignores_values_that_are_no_numbers() {
    assert!(!parse(b"blksize\x00\x00").has_option());
    assert!(!parse(b"blksize\x00abc\x00").has_option());
    assert!(!parse(b"blksize\x00 8\x00").has_option());
    assert!(!parse(b"blksize\x00-8\x00").has_option());
    assert!(!parse(b"blksize\x00+\x00").has_option());
    assert!(!parse(b"blksize\x008x\x00").has_option());
    assert!(!parse(b"blksize\x00\xff\x00").has_option());
}

#[test]
fn parse_takes_a_plus_sign_and_leading_zeros() {
    assert_eq!(8, parse(b"blksize\x00+8\x00").blksize());
    assert_eq!(8, parse(b"blksize\x0000000000000000000000008\x00").blksize());
}

#[test]
fn parse_takes_a_last_value_without_its_nul() {
    assert_eq!(16, parse(b"blksize\x0016").blksize());
}

#[test]
fn parse_stops_at_a_key_without_a_value() {
    assert!(!parse(b"blksize").has_option());
    assert!(!parse(b"").has_option());
    let options = parse(b"blksize\x0016\x00windowsize");
    assert_eq!(16, options.blksize());
    assert_eq!(1, options.windowsize());
}

#[test]
fn parse_lets_a_later_value_replace_an_earlier_one() {
    assert_eq!(32, parse(b"blksize\x0016\x00blksize\x0032\x00").blksize());
    assert_eq!(16, parse(b"blksize\x0016\x00blksize\x002\x00").blksize());
}

#[test]
fn parse_pairs_names_and_values_in_turn() {
    let options = parse(b"x\x00blksize\x0016\x00y\x00");
    assert!(!options.has_option());
}

#[test]
fn parse_ignores_a_key_that_is_not_utf8() {
    assert!(!parse(b"blk\xffsize\x0016\x00").has_option());
}

#[test]
fn written_options_are_read_back() {
    let mut options = OptionBuilder::default()
        .blksize(8)
        .timeout(255)
        .tsize()
        .windowsize(65535)
        .build();
    options.set_tsize(123456789);
    let mut bytes = options.as_bytes();
    let back = Options::from(&mut bytes);
    assert_eq!(8, back.blksize());
    assert_eq!(255, back.timeout());
    assert_eq!(123456789, back.tsize());
    assert_eq!(65535, back.windowsize());
    assert_eq!(options.as_bytes(), back.as_bytes());
}

#[test]
fn a_packet_with_some_of_the_options_gives_only_those() {
    let full = OptionBuilder::default()
        .blksize(1428)
        .timeout(7)
        .tsize()
        .windowsize(16)
        .build();
    let only = OptionBuilder::default().timeout(7).windowsize(16).build();
    let mut bytes = only.as_bytes();
    let back = Options::from(&mut bytes);
    assert_eq!(&b"timeout\x007\x00windowsize\x0016\x00"[..], back.as_bytes().as_ref());
    assert_eq!(512, back.blksize());
    assert_eq!(full.timeout(), back.timeout());
    assert_eq!(full.windowsize(), back.windowsize());
    assert_eq!(0, back.tsize());
}

#[test]
fn cut_off_lowers_blksize_and_windowsize() {
    let limits = OptionBuilder::default()
        .blksize(1024)
        .timeout(0)
        .tsize()
        .windowsize(4)
        .build();
    let mut options = OptionBuilder::default()
        .blksize(4096)
        .timeout(3)
        .tsize()
        .windowsize(16)
        .build();
    options.cut_off(&limits);
    assert_eq!(
        &b"blksize\x001024\x00timeout\x003\x00tsize\x000\x00windowsize\x004\x00"[..],
        options.as_bytes().as_ref()
    );
}

#[test]
fn cut_off_keeps_values_below_the_limits() {
    let limits = OptionBuilder::default()
        .blksize(1024)
        .timeout(0)
        .tsize()
        .windowsize(4)
        .build();
    let mut options = OptionBuilder::default().blksize(512).windowsize(2).build();
    options.cut_off(&limits);
    assert_eq!(&b"blksize\x00512\x00windowsize\x002\x00"[..], options.as_bytes().as_ref());
    let mut same = OptionBuilder::default().blksize(1024).windowsize(4).build();
    same.cut_off(&limits);
    assert_eq!(&b"blksize\x001024\x00windowsize\x004\x00"[..], same.as_bytes().as_ref());
}

#[test]
fn cut_off_strips_timeout_and_tsize_without_a_limit() {
    let limits = Options::default();
    let mut options = OptionBuilder::default()
        .blksize(4096)
        .timeout(3)
        .tsize()
        .windowsize(16)
        .build();
    options.cut_off(&limits);
    assert_eq!(&b"blksize\x004096\x00windowsize\x0016\x00"[..], options.as_bytes().as_ref());
}

#[test]
fn cut_off_adds_no_option() {
    let limits = OptionBuilder::default()
        .blksize(1024)
        .timeout(0)
        .tsize()
        .windowsize(4)
        .build();
    let mut options = Options::default();
    options.cut_off(&limits);
    assert!(!options.has_option());
}

#[test]
fn set_tsize_only_where_tsize_is_present() {
    let mut with = OptionBuilder::default().tsize().build();
    with.set_tsize(42);
    assert_eq!(42, with.tsize());
    let mut without = Options::default();
    without.set_tsize(42);
    assert_eq!(0, without.tsize());
    assert!(!without.has_option());
}

#[test]
fn parse_puts_a_key_in_lower_case_by_the_rules_of_unicode() {
    let options = parse("bl\u{212a}size\x0064\x00".as_bytes());
    assert_eq!(64, options.blksize());
    assert!(!parse("bl\u{0131}size\x0064\x00".as_bytes()).has_option());
}

#[test]
fn set_option_takes_a_name_in_lower_case() {
    let mut options = Options::default();
    options.set_option("blksize", "1024");
    options.set_option("BLKSIZE", "2048");
    options.set_option("timeout", "0");
    options.set_option("tsize", "+12");
    options.set_option("windowsize", "x");
    assert_eq!(1024, options.blksize());
    assert_eq!(10, options.timeout());
    assert_eq!(12, options.tsize());
    assert_eq!(1, options.windowsize());
}
