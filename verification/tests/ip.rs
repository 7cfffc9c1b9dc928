use zaino_e2e::ip::IpAddress;

fn v6(g: [u16; 8]) -> String {
    IpAddress::V6(g).text()
}

#[test]
fn ipv4_dotted_decimal() {
    assert_eq!(IpAddress::V4([172, 18, 0, 2]).text(), "172.18.0.2");
    assert_eq!(IpAddress::V4([0, 0, 0, 0]).text(), "0.0.0.0");
    assert_eq!(IpAddress::V4([255, 255, 255, 255]).text(), "255.255.255.255");
    assert_eq!(IpAddress::V4([10, 100, 9, 200]).text(), "10.100.9.200");
}

#[test]
fn ipv6_compresses_longest_zero_run() {
    assert_eq!(v6([0; 8]), "::");
    assert_eq!(v6([0, 0, 0, 0, 0, 0, 0, 1]), "::1");
    assert_eq!(v6([1, 0, 0, 0, 0, 0, 0, 0]), "1::");
    assert_eq!(v6([0x2001, 0xdb8, 0, 0, 1, 0, 0, 1]), "2001:db8::1:0:0:1");
    assert_eq!(v6([0x2001, 0xdb8, 0, 1, 0, 0, 0, 1]), "2001:db8:0:1::1");
}

#[test]
fn ipv6_single_zero_group_is_not_compressed() {
    assert_eq!(v6([1, 0, 2, 3, 4, 5, 6, 7]), "1:0:2:3:4:5:6:7");
    assert_eq!(v6([0xfe80, 0xabcd, 0xef01, 0x2345, 0x6789, 0xa, 0xb, 0xc]), "fe80:abcd:ef01:2345:6789:a:b:c");
}

#[test]
fn ipv6_mapped_ipv4_uses_dotted_form() {
    assert_eq!(v6([0, 0, 0, 0, 0, 0xffff, 0xac12, 0x0002]), "::ffff:172.18.0.2");
}

#[test]
fn ipv6_texts_as_std_writes_them() {
    assert_eq!(v6([0, 0, 0, 0, 0, 0, 0x0102, 0x0304]), "::102:304");
    assert_eq!(v6([0, 0, 0, 0, 0xffff, 0, 0x0102, 0x0304]), "::ffff:0:102:304");
    assert_eq!(v6([0, 0, 0, 0, 0, 0xffff, 0x0102, 0x0304]), "::ffff:1.2.3.4");
    assert_eq!(v6([1, 0, 0, 2, 0, 0, 3, 4]), "1::2:0:0:3:4");
    assert_eq!(v6([1, 0, 0, 2, 0, 0, 0, 4]), "1:0:0:2::4");
    assert_eq!(v6([0xffff; 8]), "ffff:ffff:ffff:ffff:ffff:ffff:ffff:ffff");
    assert_eq!(v6([0, 1, 0, 1, 0, 1, 0, 1]), "0:1:0:1:0:1:0:1");
    assert_eq!(v6([0x2001, 0xdb8, 0x85a3, 0, 0, 0x8a2e, 0x370, 0x7334]), "2001:db8:85a3::8a2e:370:7334");
}

#[test]
fn ipv4_texts() {
    assert_eq!(IpAddress::V4([127, 0, 0, 1]).text(), "127.0.0.1");
    assert_eq!(IpAddress::V4([9, 99, 199, 0]).text(), "9.99.199.0");
    assert_eq!(IpAddress::V4([0, 10, 0, 100]).text(), "0.10.0.100");
}
