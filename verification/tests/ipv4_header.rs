use demikernel::inetstack::protocols::layer3::ipv4::header::{IPV4_HEADER_MAX_SIZE, IPV4_HEADER_MIN_SIZE};
use demikernel::inetstack::protocols::layer3::{IpProtocol, Ipv4Header};
use demikernel::inetstack::protocols::{compute_generic_checksum, fold16};
use demikernel::runtime::memory::DemiBuffer;
use demikernel::runtime::network::Ipv4Addr;

/// A datagram header that is known to be right.
const HEADER: [u8; 20] = [
    0x45, 0x00, 0x00, 0x73, 0x00, 0x00, 0x40, 0x00, 0x40, 0x11, 0xb8, 0x61, 0xc0, 0xa8, 0x00, 0x01, 0xc0, 0xa8, 0x00,
    0xc7,
];

fn datagram() -> Vec<u8> {
    let mut bytes = HEADER.to_vec();
    bytes.extend((0..95).map(|i| i as u8));
    bytes
}

fn buffer(bytes: &[u8]) -> DemiBuffer {
    DemiBuffer::from_storage(bytes.to_vec(), 0, bytes.len(), false)
}

/// Recomputes the checksum after a field was changed.
fn with_checksum(mut bytes: Vec<u8>) -> Vec<u8> {
    let size = ((bytes[0] & 0xf) as usize) * 4;
    let checksum = Ipv4Header::compute_checksum(&bytes[..size]);
    bytes[10..12].copy_from_slice(&checksum.to_be_bytes());
    bytes
}

fn refused(bytes: &[u8], errno: i32, cause: &str) {
    let mut buf = buffer(bytes);
    let fail = Ipv4Header::parse_and_strip(&mut buf).unwrap_err();
    assert_eq!((fail.errno, fail.cause.as_str()), (errno, cause));
    assert_eq!(buf.as_slice(), bytes);
    assert_eq!(buf.headroom(), 0);
}

#[test]
fn sizes() {
    assert_eq!(IPV4_HEADER_MIN_SIZE, 20);
    assert_eq!(IPV4_HEADER_MAX_SIZE, 60);
}

#[test]
fn a_known_checksum() {
    assert_eq!(Ipv4Header::compute_checksum(&HEADER), 0xb861);
    assert_eq!(Ipv4Header::compute_checksum(&[]), 0xffff);
    assert_eq!(Ipv4Header::compute_checksum(&[0x12]), !0x1200);
    assert_eq!(Ipv4Header::compute_checksum(&[0xff, 0xff, 0x00, 0x01]), 0xfffe);
}

#[test]
fn running_sums_fold() {
    assert_eq!(compute_generic_checksum(&[], None), 0xffff);
    assert_eq!(compute_generic_checksum(&[0x12, 0x34, 0x56], Some(1)), 1 + 0x1234 + 0x5600);
    assert_eq!(fold16(0), 0xffff);
    assert_eq!(fold16(0xffff), 0);
    assert_eq!(fold16(0x1_0000), 0xfffe);
    assert_eq!(fold16(0x1_fffe), 0);
}

#[test]
fn a_datagram_is_parsed_and_stripped() {
    let mut buf = buffer(&datagram());
    let header = Ipv4Header::parse_and_strip(&mut buf).unwrap();
    assert_eq!(header.src_addr(), Ipv4Addr::new(192, 168, 0, 1));
    assert_eq!(header.dst_addr(), Ipv4Addr::new(192, 168, 0, 199));
    assert_eq!(header.protocol(), IpProtocol::UDP);
    assert_eq!(header.compute_size(), 20);
    assert_eq!((header.version, header.ihl, header.dscp, header.ecn), (4, 5, 0, 0));
    assert_eq!((header.total_length, header.identification, header.flags), (115, 0, 2));
    assert_eq!((header.fragment_offset, header.ttl, header.header_checksum), (0, 64, 0xb861));
    assert_eq!(buf.as_slice(), &datagram()[20..]);
    assert_eq!(buf.headroom(), 20);
}

#[test]
fn padding_is_cut_off() {
    let mut bytes = datagram();
    bytes.extend([0xee; 7]);
    let mut buf = buffer(&bytes);
    Ipv4Header::parse_and_strip(&mut buf).unwrap();
    assert_eq!(buf.as_slice(), &datagram()[20..]);
}

#[test]
fn options_are_stripped_too() {
    let mut bytes = datagram();
    bytes[0] = 0x46;
    let bytes = with_checksum(bytes);
    let mut buf = buffer(&bytes);
    let header = Ipv4Header::parse_and_strip(&mut buf).unwrap();
    assert_eq!(header.compute_size(), 24);
    assert_eq!(buf.as_slice(), &datagram()[24..]);
}

#[test]
fn services_and_congestion_bits_are_read() {
    let mut bytes = datagram();
    bytes[1] = 0b1011_0110;
    bytes[4] = 0x12;
    bytes[5] = 0x34;
    bytes[6] = 0;
    let header = Ipv4Header::parse_and_strip(&mut buffer(&with_checksum(bytes))).unwrap();
    assert_eq!((header.dscp, header.ecn, header.identification, header.flags), (0b101101, 0b10, 0x1234, 0));
}

#[test]
fn damaged_datagrams_are_refused() {
    refused(&datagram()[..19], libc::EBADMSG, "ipv4 datagram too small");
    let changed = |at: usize, value: u8| {
        let mut bytes = datagram();
        bytes[at] = value;
        with_checksum(bytes)
    };
    let mut version = datagram();
    version[0] = 0x65;
    refused(&version, libc::ENOTSUP, "unsupported IP version");
    let mut ihl = datagram();
    ihl[0] = 0x44;
    refused(&ihl, libc::EBADMSG, "ipv4 IHL is too small");
    let mut options = datagram();
    options[0] = 0x4f;
    refused(&options[..59], libc::EBADMSG, "ipv4 datagram too small to fit in header");
    refused(&changed(3, 19), libc::EBADMSG, "ipv4 datagram smaller than header");
    refused(&changed(3, 116), libc::EBADMSG, "ipv4 datagram size mismatch");
    refused(&changed(6, 0x80), libc::EBADMSG, "ipv4 datagram is marked as evil");
    refused(&changed(6, 0x20), libc::ENOTSUP, "ipv4 fragmentation is not supported");
    refused(&changed(7, 1), libc::ENOTSUP, "ipv4 fragmentation is not supported");
    refused(&changed(8, 0), libc::EBADMSG, "ipv4 datagram too old");
    refused(&changed(9, 2), libc::ENOTSUP, "unsupported protocol");
    let mut ones = datagram();
    ones[10] = 0xff;
    ones[11] = 0xff;
    refused(&ones, libc::EBADMSG, "ipv4 checksum invalid");
    let mut wrong = datagram();
    wrong[11] ^= 1;
    refused(&wrong, libc::EBADMSG, "ipv4 checksum mismatch");
}

#[test]
fn a_header_is_written() {
    let header = Ipv4Header::new(Ipv4Addr::new(10, 0, 0, 1), Ipv4Addr::new(10, 0, 0, 2), IpProtocol::TCP);
    let mut buf = DemiBuffer::new_with_headroom(3, 30);
    buf.copy_from_slice(&[1, 2, 3]);
    header.serialize_and_attach(&mut buf, false);
    assert_eq!(buf.headroom(), 10);
    let expected: [u8; 23] = [
        0x45, 0, 0, 23, 0, 0, 0x40, 0, 255, 6, 0x67, 0xde, 10, 0, 0, 1, 10, 0, 0, 2, 1, 2, 3,
    ];
    assert_eq!(buf.as_slice(), &expected);
}

#[test]
fn parsing_undoes_writing() {
    let header = Ipv4Header::new(Ipv4Addr::new(10, 0, 0, 1), Ipv4Addr::new(10, 0, 0, 2), IpProtocol::UDP);
    let mut buf = DemiBuffer::new_with_headroom(5, 20);
    buf.copy_from_slice(b"hello");
    header.serialize_and_attach(&mut buf, false);
    let wire = buf.as_slice().to_vec();
    let parsed = Ipv4Header::parse_and_strip(&mut buf).unwrap();
    assert_eq!(parsed.total_length, 25);
    assert_eq!(Ipv4Header { total_length: 20, header_checksum: 0, ..parsed }, header);
    assert_eq!(buf.as_slice(), b"hello");
    parsed.serialize_and_attach(&mut buf, false);
    assert_eq!(buf.as_slice(), wire);
}

#[test]
fn an_offloaded_checksum_is_left_to_the_card() {
    let header = Ipv4Header::new(Ipv4Addr::new(10, 0, 0, 1), Ipv4Addr::new(10, 0, 0, 2), IpProtocol::UDP);
    let mut buf = DemiBuffer::new_with_headroom(5, 20);
    header.serialize_and_attach(&mut buf, true);
    assert_eq!(&buf.as_slice()[10..12], &[0, 0]);
    let fail = Ipv4Header::parse_and_strip(&mut buf).unwrap_err();
    assert_eq!(fail.cause, "ipv4 checksum mismatch");
}

#[test]
fn protocol_numbers() {
    for (protocol, number) in [(IpProtocol::ICMPv4, 1), (IpProtocol::TCP, 6), (IpProtocol::UDP, 17)] {
        assert_eq!(protocol.number(), number);
        assert_eq!(IpProtocol::try_from(number).ok(), Some(protocol));
    }
    assert_eq!(IpProtocol::try_from(0).unwrap_err().errno, libc::ENOTSUP);
}
