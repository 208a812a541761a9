use nss_resolver::address::synthesize;
use nss_resolver::address::AddressFamily;
use nss_resolver::address::{AF_INET, AF_INET6};
use nss_resolver::lookup::{
    lookup_by_address, lookup_by_name, lookup_by_name_default_family, Resolver,
};
use nss_resolver::marshal::{
    fill, fill_zeros, write_record, RecordLayout, POINTER_BYTES, TABLES_BYTES,
};
use nss_resolver::status::Status;

const V6_LOOPBACK: [u8; 16] = [0, 0, 0, 0, 0, 0, 0, 0, 0, 0, 0, 0, 0, 0, 0, 1];

fn address_in(buf: &[u8], layout: &RecordLayout) -> Vec<u8> {
    buf[layout.address_at..layout.address_at + layout.addr_len].to_vec()
}

#[test]
fn default_configuration_resolves_ipv4() {
    let mut buf = vec![0xaau8; 128];
    let (status, layout) = lookup_by_name(b"svc.test", AF_INET, None, &mut buf);
    assert_eq!(status, Status::Success);
    let layout = layout.unwrap();
    assert_eq!(layout.family, AddressFamily::Ipv4);
    assert_eq!(address_in(&buf, &layout), vec![127, 0, 0, 1]);
}

#[test]
fn second_configured_domain_resolves_ipv6() {
    let mut buf = vec![0xaau8; 128];
    let (status, layout) = lookup_by_name(b"api.dev", AF_INET6, Some("test,dev"), &mut buf);
    assert_eq!(status, Status::Success);
    let layout = layout.unwrap();
    assert_eq!(layout.family, AddressFamily::Ipv6);
    assert_eq!(address_in(&buf, &layout), V6_LOOPBACK.to_vec());
}

#[test]
fn foreign_name_is_not_found() {
    let mut buf = vec![0xaau8; 128];
    let (status, layout) = lookup_by_name(b"example.com", AF_INET, None, &mut buf);
    assert_eq!(status, Status::NotFound);
    assert_eq!(layout, None);
    assert_eq!(buf, vec![0xaau8; 128]);
    let (status, _) = lookup_by_name(b"example.com", AF_INET6, None, &mut buf);
    assert_eq!(status, Status::NotFound);
}

#[test]
fn name_without_dot_is_not_found() {
    let mut buf = vec![0xaau8; 128];
    let (status, layout) = lookup_by_name(b"localhost", AF_INET, None, &mut buf);
    assert_eq!(status, Status::NotFound);
    assert_eq!(layout, None);
    let (status, _) = lookup_by_name(b"localhost", AF_INET, Some("localhost"), &mut buf);
    assert_eq!(status, Status::NotFound);
}

#[test]
fn reverse_lookup_is_unavailable() {
    assert_eq!(lookup_by_address(&[127, 0, 0, 1], AF_INET), Status::Unavailable);
    assert_eq!(lookup_by_address(&V6_LOOPBACK, AF_INET6), Status::Unavailable);
    assert_eq!(lookup_by_address(&[], AF_INET), Status::Unavailable);
    assert_eq!(lookup_by_address(&[], 0), Status::Unavailable);
    assert_eq!(lookup_by_address(&[10, 0, 0, 1], -7), Status::Unavailable);
    assert!(Resolver::gethostbyaddr_r(&[127, 0, 0, 1]).is_none());
    assert!(Resolver::gethostbyaddr_r(&[]).is_none());
}

#[test]
fn configured_domain_resolves_in_both_families() {
    let config = "test,Dev,internal";
    for name in ["a.test", "A.TEST", "x.y.dev", "db.Internal", ".dev"] {
        let mut buf = vec![0u8; 128];
        let (status, layout) = lookup_by_name(name.as_bytes(), AF_INET, Some(config), &mut buf);
        assert_eq!(status, Status::Success);
        assert_eq!(address_in(&buf, &layout.unwrap()), vec![127, 0, 0, 1]);
        let (status, layout) = lookup_by_name(name.as_bytes(), AF_INET6, Some(config), &mut buf);
        assert_eq!(status, Status::Success);
        assert_eq!(address_in(&buf, &layout.unwrap()), V6_LOOPBACK.to_vec());
    }
}

#[test]
fn domain_with_a_dot_is_never_reached() {
    let mut buf = vec![0u8; 128];
    let (status, _) = lookup_by_name(b"a.co.uk", AF_INET, Some("co.uk"), &mut buf);
    assert_eq!(status, Status::NotFound);
}

#[test]
fn suffix_outside_the_list_is_not_found() {
    let mut buf = vec![0u8; 128];
    for name in ["c.org", "a.tes", "a.testing", "test.com", "a.test."] {
        let (status, layout) = lookup_by_name(name.as_bytes(), AF_INET, Some("test,dev"), &mut buf);
        assert_eq!(status, Status::NotFound);
        assert_eq!(layout, None);
    }
}

#[test]
fn case_does_not_change_the_answer() {
    let mut upper = vec![0u8; 64];
    let mut lower = vec![0u8; 64];
    let (su, lu) = lookup_by_name(b"FOO.TEST", AF_INET, None, &mut upper);
    let (sl, ll) = lookup_by_name(b"foo.test", AF_INET, None, &mut lower);
    assert_eq!(su, Status::Success);
    assert_eq!(sl, Status::Success);
    assert_eq!(lu, ll);
    assert_eq!(address_in(&upper, &lu.unwrap()), address_in(&lower, &ll.unwrap()));
}

#[test]
fn undecodable_name_is_not_found() {
    let mut buf = vec![0x55u8; 64];
    let (status, layout) = lookup_by_name(b"\xff\xfe.test", AF_INET, None, &mut buf);
    assert_eq!(status, Status::NotFound);
    assert_eq!(layout, None);
    assert_eq!(buf, vec![0x55u8; 64]);
    let (status, _) = lookup_by_name(b"\xff\xfe.test", 99, None, &mut buf);
    assert_eq!(status, Status::NotFound);
    let (status, _) = lookup_by_name("\u{fc}ber.test".as_bytes(), AF_INET, None, &mut buf);
    assert_eq!(status, Status::Success);
}

#[test]
fn unsupported_family_is_unavailable() {
    let mut buf = vec![0x55u8; 64];
    for raw in [0, 1, 3, -1, 9, 11, i32::MAX, i32::MIN] {
        let (status, layout) = lookup_by_name(b"svc.test", raw, None, &mut buf);
        assert_eq!(status, Status::Unavailable);
        assert_eq!(layout, None);
        assert_eq!(buf, vec![0x55u8; 64]);
        let (status, _) = lookup_by_name(b"svc.org", raw, None, &mut buf);
        assert_eq!(status, Status::NotFound);
    }
}

#[test]
fn small_buffer_asks_to_try_again() {
    // 24 bytes of tables, 4 of address, 8 of name and the zero byte: 37.
    for capacity in [0usize, 1, 24, 28, 36] {
        let mut buf = vec![0x55u8; capacity];
        let (status, layout) = lookup_by_name(b"svc.test", AF_INET, None, &mut buf);
        assert_eq!(status, Status::TryAgain);
        assert_eq!(layout, None);
        assert_eq!(buf, vec![0x55u8; capacity]);
    }
    let mut buf = vec![0x55u8; 37];
    let (status, _) = lookup_by_name(b"svc.test", AF_INET, None, &mut buf);
    assert_eq!(status, Status::Success);
    // With a 16-byte address the record takes 49.
    let mut buf = vec![0x55u8; 48];
    let (status, _) = lookup_by_name(b"svc.test", AF_INET6, None, &mut buf);
    assert_eq!(status, Status::TryAgain);
    assert_eq!(buf, vec![0x55u8; 48]);
    let mut buf = vec![0x55u8; 49];
    let (status, _) = lookup_by_name(b"svc.test", AF_INET6, None, &mut buf);
    assert_eq!(status, Status::Success);
}

#[test]
fn small_buffer_matters_only_for_a_match() {
    let mut buf: Vec<u8> = Vec::new();
    let (status, _) = lookup_by_name(b"svc.org", AF_INET, None, &mut buf);
    assert_eq!(status, Status::NotFound);
    let (status, _) = lookup_by_name(b"svc.test", 5, None, &mut buf);
    assert_eq!(status, Status::Unavailable);
}

#[test]
fn written_image_ipv4() {
    let mut buf = vec![0xaau8; 40];
    let (status, layout) = lookup_by_name(b"svc.test", AF_INET, None, &mut buf);
    assert_eq!(status, Status::Success);
    let mut expected = vec![0u8; 24];
    expected.extend_from_slice(&[127, 0, 0, 1]);
    expected.extend_from_slice(b"svc.test\0");
    expected.extend_from_slice(&[0xaa, 0xaa, 0xaa]);
    assert_eq!(buf, expected);
    assert_eq!(
        layout,
        Some(RecordLayout {
            aliases_at: 0,
            addr_list_at: 8,
            address_at: 24,
            name_at: 28,
            family: AddressFamily::Ipv4,
            addr_len: 4,
            total: 37,
        })
    );
}

#[test]
fn written_image_ipv6() {
    let mut buf = vec![0xaau8; 50];
    let (status, layout) = lookup_by_name(b"api.dev", AF_INET6, Some("test,dev"), &mut buf);
    assert_eq!(status, Status::Success);
    let mut expected = vec![0u8; 24];
    expected.extend_from_slice(&V6_LOOPBACK);
    expected.extend_from_slice(b"api.dev\0");
    expected.extend_from_slice(&[0xaa, 0xaa]);
    assert_eq!(buf, expected);
    assert_eq!(
        layout,
        Some(RecordLayout {
            aliases_at: 0,
            addr_list_at: 8,
            address_at: 24,
            name_at: 40,
            family: AddressFamily::Ipv6,
            addr_len: 16,
            total: 48,
        })
    );
}

#[test]
fn default_family_is_ipv4() {
    let mut a = vec![0xaau8; 64];
    let mut b = vec![0xaau8; 64];
    let with_family = lookup_by_name(b"svc.test", AF_INET, None, &mut a);
    let without = lookup_by_name_default_family(b"svc.test", None, &mut b);
    assert_eq!(with_family, without);
    assert_eq!(without.0, Status::Success);
    assert_eq!(without.1.unwrap().addr_len, 4);
    assert_eq!(a, b);
    assert_eq!(address_in(&b, &without.1.unwrap()), vec![127, 0, 0, 1]);
    let (status, layout) = lookup_by_name_default_family(b"svc.dev", None, &mut b);
    assert_eq!(status, Status::NotFound);
    assert_eq!(layout, None);
    let mut small = vec![0u8; 10];
    let (status, _) = lookup_by_name_default_family(b"svc.test", None, &mut small);
    assert_eq!(status, Status::TryAgain);
}

#[test]
fn configuration_is_taken_anew_each_call() {
    let mut buf = vec![0u8; 64];
    let (status, _) = lookup_by_name(b"b.dev", AF_INET, None, &mut buf);
    assert_eq!(status, Status::NotFound);
    let (status, _) = lookup_by_name(b"b.dev", AF_INET, Some("dev"), &mut buf);
    assert_eq!(status, Status::Success);
    let (status, _) = lookup_by_name(b"b.test", AF_INET, Some("dev"), &mut buf);
    assert_eq!(status, Status::NotFound);
    let (status, _) = lookup_by_name(b"b.dev", AF_INET, None, &mut buf);
    assert_eq!(status, Status::NotFound);
}

#[test]
fn gethostbyname2_r_gives_the_record() {
    let r = Resolver::gethostbyname2_r(b"svc.test", AddressFamily::Ipv4, None).unwrap();
    assert_eq!(r.name, b"svc.test".to_vec());
    assert!(r.aliases.is_empty());
    assert_eq!(r.family, AddressFamily::Ipv4);
    assert_eq!(r.address, vec![127, 0, 0, 1]);
    let r = Resolver::gethostbyname2_r(b"api.dev", AddressFamily::Ipv6, Some("test,dev")).unwrap();
    assert_eq!(r.name, b"api.dev".to_vec());
    assert_eq!(r.family, AddressFamily::Ipv6);
    assert_eq!(r.address, V6_LOOPBACK.to_vec());
    assert!(Resolver::gethostbyname2_r(b"example.com", AddressFamily::Ipv4, None).is_none());
    assert!(Resolver::gethostbyname2_r(b"localhost", AddressFamily::Ipv4, None).is_none());
    assert!(Resolver::gethostbyname2_r(b"\xff.test", AddressFamily::Ipv4, None).is_none());
}

#[test]
fn write_record_respects_the_capacity() {
    let record = synthesize(b"h.test", AddressFamily::Ipv4);
    let mut buf = vec![7u8; 34];
    assert_eq!(write_record(&record, &mut buf), None);
    assert_eq!(buf, vec![7u8; 34]);
    let mut buf = vec![7u8; 35];
    let layout = write_record(&record, &mut buf).unwrap();
    assert_eq!(layout.total, 35);
    assert_eq!(layout.name_at, 28);
    assert_eq!(&buf[28..35], b"h.test\0");
    assert_eq!(&buf[24..28], &[127, 0, 0, 1]);
    assert_eq!(&buf[..24], &[0u8; 24]);
}

#[test]
fn table_sizes() {
    assert_eq!(POINTER_BYTES, 8);
    assert_eq!(TABLES_BYTES, 3 * POINTER_BYTES);
}

#[test]
fn fill_overwrites_only_its_range() {
    let mut buf = vec![9u8; 8];
    fill(&mut buf, 2, b"abc");
    assert_eq!(buf, vec![9, 9, b'a', b'b', b'c', 9, 9, 9]);
    fill(&mut buf, 8, b"");
    assert_eq!(buf, vec![9, 9, b'a', b'b', b'c', 9, 9, 9]);
    fill_zeros(&mut buf, 1, 3);
    assert_eq!(buf, vec![9, 0, 0, 0, b'c', 9, 9, 9]);
    fill_zeros(&mut buf, 0, 0);
    assert_eq!(buf, vec![9, 0, 0, 0, b'c', 9, 9, 9]);
}
