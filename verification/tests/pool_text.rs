use service_scan::ip_pool::{IPAddrPool, IPAddrPoolError};
use service_scan::ipv4::{format_ipv4, parse_ipv4};

fn parse(text: &str) -> Result<IPAddrPool, IPAddrPoolError> {
    IPAddrPool::try_from(text.to_string())
}

fn chars(text: &str) -> Vec<char> {
    text.chars().collect()
}

#[test]
fn parses_a_pool_with_a_bit_count() {
    let pool = parse("10.0.0.0/8").unwrap();
    assert_eq!(pool.addr(), 0x0A00_0000);
    assert_eq!(pool.bits(), 8);
}

#[test]
fn a_pool_without_a_bit_count_has_32() {
    let pool = parse("192.168.1.77").unwrap();
    assert_eq!(pool.addr(), 0xC0A8_014D);
    assert_eq!(pool.bits(), 32);
}

#[test]
fn bit_counts_from_0_to_32_are_taken() {
    for n in 0u8..=32 {
        let pool = parse(&format!("172.16.0.1/{}", n)).unwrap();
        assert_eq!(pool.addr(), 0xAC10_0001);
        assert_eq!(pool.bits(), n);
    }
}

#[test]
fn rejects_a_bit_count_above_32() {
    assert_eq!(parse("10.0.0.0/33"), Err(IPAddrPoolError::PrefixOutOfRange));
    assert_eq!(parse("10.0.0.0/255"), Err(IPAddrPoolError::PrefixOutOfRange));
    assert_eq!(parse("10.0.0.0/256"), Err(IPAddrPoolError::PrefixOutOfRange));
    assert_eq!(
        parse("10.0.0.0/99999999999999999999999999"),
        Err(IPAddrPoolError::PrefixOutOfRange)
    );
}

#[test]
fn rejects_a_bit_count_that_is_no_number() {
    for text in ["10.0.0.0/", "10.0.0.0/x", "10.0.0.0/-1", "10.0.0.0/8 ", "10.0.0.0/ 8",
        "10.0.0.0/8/8", "10.0.0.0/+", "10.0.0.0/++8", "10.0.0.0/0x8", "10.0.0.0/８"]
    {
        assert_eq!(parse(text), Err(IPAddrPoolError::InvalidAddressSpec), "{}", text);
    }
}

#[test]
fn a_bit_count_may_have_a_plus_sign_and_leading_zeros() {
    assert_eq!(parse("10.0.0.0/+8").unwrap().bits(), 8);
    assert_eq!(parse("10.0.0.0/008").unwrap().bits(), 8);
    assert_eq!(parse("10.0.0.0/+0032").unwrap().bits(), 32);
    assert_eq!(parse("10.0.0.0/0000000000000000000000000000").unwrap().bits(), 0);
    assert_eq!(parse("10.0.0.0/033"), Err(IPAddrPoolError::PrefixOutOfRange));
}

#[test]
fn rejects_a_malformed_address() {
    for text in ["", "/8", "10.0.0/8", "10.0.0.0.0/8", "256.0.0.1/8", "10.0.0.256/8",
        "01.2.3.4/8", "1.2.3.04/8", "1..3.4/8", "1.2.3.4./8", ".1.2.3.4/8", "a.b.c.d/8",
        "1.2.3.4 /8", " 1.2.3.4/8", "1.2.3.-4/8", "1.2.3.+4/8", "0x1.2.3.4/8", "1.2.3.1000/8",
        "::1/8", "1.2.3.４/8", "localhost"]
    {
        assert_eq!(parse(text), Err(IPAddrPoolError::InvalidAddressSpec), "{}", text);
    }
}

#[test]
fn a_bad_address_is_reported_before_a_bad_bit_count() {
    assert_eq!(parse("300.0.0.0/99"), Err(IPAddrPoolError::InvalidAddressSpec));
    assert_eq!(parse("300.0.0.0/x"), Err(IPAddrPoolError::InvalidAddressSpec));
}

#[test]
fn writes_a_pool_as_address_slash_bit_count() {
    assert_eq!(parse("10.0.0.0/8").unwrap().into(), "10.0.0.0/8");
    assert_eq!(parse("255.255.255.255/0").unwrap().into(), "255.255.255.255/0");
    assert_eq!(parse("0.0.0.0/+032").unwrap().into(), "0.0.0.0/32");
    assert_eq!(parse("192.168.1.77").unwrap().into(), "192.168.1.77/32");
}

#[test]
fn parse_write_parse_gives_the_same_pool() {
    let addresses = ["0.0.0.0", "10.0.0.0", "127.0.0.1", "192.168.100.9", "255.255.255.255",
        "1.10.100.200", "9.99.199.249"];
    for address in addresses {
        for n in 0u8..=32 {
            let first = parse(&format!("{}/{}", address, n)).unwrap();
            let text = first.into();
            assert_eq!(text, format!("{}/{}", address, n));
            let second = parse(&text).unwrap();
            assert_eq!(second, first);
            assert_eq!((second.addr(), second.bits()), (first.addr(), first.bits()));
        }
    }
}

#[test]
fn formats_addresses_in_dotted_decimal() {
    assert_eq!(format_ipv4(0), "0.0.0.0");
    assert_eq!(format_ipv4(0x0A00_0001), "10.0.0.1");
    assert_eq!(format_ipv4(0xFFFF_FFFF), "255.255.255.255");
    assert_eq!(format_ipv4(0x0102_6409), "1.2.100.9");
}

#[test]
fn parses_exactly_what_it_formats() {
    let mut a: u32 = 1;
    for _ in 0..5000 {
        a = a.wrapping_mul(1_664_525).wrapping_add(1_013_904_223);
        let text = format_ipv4(a);
        assert_eq!(parse_ipv4(&chars(&text)), Some(a), "{}", text);
        let expected = format!("{}.{}.{}.{}", a >> 24, (a >> 16) & 255, (a >> 8) & 255, a & 255);
        assert_eq!(text, expected);
    }
    assert_eq!(parse_ipv4(&chars("1.2.3")), None);
    assert_eq!(parse_ipv4(&chars("1.2.3.4.5")), None);
    assert_eq!(parse_ipv4(&chars("1.2.3.256")), None);
    assert_eq!(parse_ipv4(&chars("1.2.3.00")), None);
    assert_eq!(parse_ipv4(&chars("0.0.0.0")), Some(0));
}
