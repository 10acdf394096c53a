//! End-to-end tests: parsing, aggregation, ranking and the rendered
//! report on concrete frame runs.

use pcap_stats::aggregate_frames;
use pcap_stats::aggregator::Aggregator;
use pcap_stats::parser::{parse_packet, ParseError};
use pcap_stats::rank::{limit_entries, rank, take_top};
use pcap_stats::report::render_report;

/// A minimal 34-byte IPv4 frame with the given destination address
/// octets and protocol identifier.
fn ipv4_frame(dest: [u8; 4], proto: u8) -> Vec<u8> {
    let mut data = vec![0u8; 34];
    data[12] = 0x08;
    data[13] = 0x00;
    data[23] = proto;
    data[30] = dest[0];
    data[31] = dest[1];
    data[32] = dest[2];
    data[33] = dest[3];
    data
}

fn addr(octets: [u8; 4]) -> u32 {
    u32::from_be_bytes(octets)
}

#[test]
fn short_frame_is_malformed() {
    assert_eq!(parse_packet(&[0u8; 13]), Err(ParseError::MalformedFrame));
    assert_eq!(parse_packet(&[]), Err(ParseError::MalformedFrame));
}

#[test]
fn short_ipv4_claim_is_malformed() {
    let mut data = vec![0u8; 20];
    data[12] = 0x08;
    data[13] = 0x00;
    assert_eq!(parse_packet(&data), Err(ParseError::MalformedFrame));
    let mut exact = vec![0u8; 33];
    exact[12] = 0x08;
    exact[13] = 0x00;
    assert_eq!(parse_packet(&exact), Err(ParseError::MalformedFrame));
}

#[test]
fn ipv6_frame_is_unsupported() {
    let mut data = vec![0u8; 60];
    data[12] = 0x86;
    data[13] = 0xDD;
    assert_eq!(parse_packet(&data), Err(ParseError::UnsupportedProtocol));
    let mut short = vec![0u8; 14];
    short[12] = 0x86;
    short[13] = 0xDD;
    assert_eq!(parse_packet(&short), Err(ParseError::UnsupportedProtocol));
}

#[test]
fn unknown_frame_type_is_rejected() {
    let mut data = vec![0u8; 60];
    data[12] = 0x08;
    data[13] = 0x06;
    assert_eq!(parse_packet(&data), Err(ParseError::UnknownFrameType));
}

#[test]
fn parse_extracts_destination_and_protocol() {
    let data = ipv4_frame([192, 168, 1, 7], 17);
    let rec = parse_packet(&data).unwrap();
    assert_eq!(rec.dest_address, addr([192, 168, 1, 7]));
    assert_eq!(rec.protocol, 17);
}

#[test]
fn aggregate_counts_volume_and_protocols() {
    let frames = vec![
        (ipv4_frame([10, 0, 0, 1], 17), 60),
        (ipv4_frame([10, 0, 0, 1], 17), 80),
        (ipv4_frame([10, 0, 0, 2], 6), 100),
    ];
    let agg = aggregate_frames(&frames).unwrap();
    assert_eq!(agg.packet_count, 3);
    assert_eq!(agg.total_volume, 240);
    assert_eq!(agg.udp, 2);
    assert_eq!(agg.tcp, 1);
    assert_eq!(agg.other, 0);
}

#[test]
fn round_trip_report() {
    let frames = vec![
        (ipv4_frame([10, 0, 0, 1], 17), 60),
        (ipv4_frame([10, 0, 0, 1], 17), 80),
        (ipv4_frame([10, 0, 0, 2], 6), 100),
    ];
    let agg = aggregate_frames(&frames).unwrap();
    let ranked = agg.finalize();
    assert_eq!(ranked, vec![(addr([10, 0, 0, 1]), 2), (addr([10, 0, 0, 2]), 1)]);
    let shown = limit_entries(&ranked, false);
    let bytes = render_report(
        agg.total_volume,
        agg.packet_count,
        &shown,
        agg.udp,
        agg.tcp,
        agg.other,
    );
    let text = String::from_utf8(bytes).unwrap();
    let expected = "Average packet size: 80.00 bytes\n\
                    Total volume: 240 bytes\n\
                    \n\
                    Primary targets:\n\
                    \t10.0.0.1        (2 packets recieved)\n\
                    \t10.0.0.2        (1 packets recieved)\n\
                    \n\
                    Protocols:\n\
                    \tUDP   : 2\n\
                    \tTCP   : 1\n\
                    \tOther : 0\n";
    assert_eq!(text, expected);
}

#[test]
fn empty_capture_reports_nan() {
    let frames: Vec<(Vec<u8>, u32)> = Vec::new();
    let agg = aggregate_frames(&frames).unwrap();
    assert_eq!(agg.packet_count, 0);
    let ranked = agg.finalize();
    assert!(ranked.is_empty());
    let shown = limit_entries(&ranked, false);
    let bytes = render_report(0, 0, &shown, 0, 0, 0);
    let text = String::from_utf8(bytes).unwrap();
    assert!(text.starts_with("Average packet size: NaN bytes\n"));
    assert!(text.contains("Total volume: 0 bytes\n"));
}

#[test]
fn average_rounds_to_two_decimals() {
    let frames = vec![
        (ipv4_frame([10, 0, 0, 1], 17), 100),
        (ipv4_frame([10, 0, 0, 1], 17), 50),
        (ipv4_frame([10, 0, 0, 1], 17), 50),
    ];
    let agg = aggregate_frames(&frames).unwrap();
    let ranked = agg.finalize();
    let bytes = render_report(
        agg.total_volume,
        agg.packet_count,
        &ranked,
        agg.udp,
        agg.tcp,
        agg.other,
    );
    let text = String::from_utf8(bytes).unwrap();
    // 200 / 3 = 66.666..., reported to two decimal places
    assert!(text.starts_with("Average packet size: 66.67 bytes\n"));
}

#[test]
fn fail_fast_on_first_bad_frame() {
    let frames = vec![
        (ipv4_frame([10, 0, 0, 1], 17), 60),
        (vec![0u8; 5], 5),
        (ipv4_frame([10, 0, 0, 2], 6), 100),
    ];
    let r = aggregate_frames(&frames);
    assert!(matches!(r, Err(ParseError::MalformedFrame)));
}

#[test]
fn repeated_address_counts_up() {
    let frames = vec![
        (ipv4_frame([172, 16, 0, 9], 6), 40),
        (ipv4_frame([172, 16, 0, 9], 17), 41),
        (ipv4_frame([172, 16, 0, 9], 99), 42),
    ];
    let agg = aggregate_frames(&frames).unwrap();
    assert_eq!(agg.udp, 1);
    assert_eq!(agg.tcp, 1);
    assert_eq!(agg.other, 1);
    let ranked = agg.finalize();
    assert_eq!(ranked, vec![(addr([172, 16, 0, 9]), 3)]);
}

#[test]
fn ranking_is_sorted_descending() {
    let frames = vec![
        (ipv4_frame([10, 0, 0, 3], 6), 10),
        (ipv4_frame([10, 0, 0, 1], 6), 10),
        (ipv4_frame([10, 0, 0, 1], 6), 10),
        (ipv4_frame([10, 0, 0, 1], 6), 10),
        (ipv4_frame([10, 0, 0, 2], 6), 10),
        (ipv4_frame([10, 0, 0, 2], 6), 10),
    ];
    let agg = aggregate_frames(&frames).unwrap();
    let ranked = agg.finalize();
    assert_eq!(ranked.len(), 3);
    for w in ranked.windows(2) {
        assert!(w[0].1 >= w[1].1);
    }
    assert_eq!(ranked[0], (addr([10, 0, 0, 1]), 3));
    assert_eq!(ranked[1], (addr([10, 0, 0, 2]), 2));
    assert_eq!(ranked[2], (addr([10, 0, 0, 3]), 1));
}

#[test]
fn top_five_limit_and_all_ips() {
    let mut frames = Vec::new();
    for oct in 1u8..=7 {
        // address 10.0.0.oct occurs oct times
        for _ in 0..oct {
            frames.push((ipv4_frame([10, 0, 0, oct], 17), 20));
        }
    }
    let agg = aggregate_frames(&frames).unwrap();
    let ranked = agg.finalize();
    assert_eq!(ranked.len(), 7);

    let top = limit_entries(&ranked, false);
    assert_eq!(top.len(), 5);
    // the top five are the five most frequent addresses
    assert_eq!(
        top,
        vec![
            (addr([10, 0, 0, 7]), 7),
            (addr([10, 0, 0, 6]), 6),
            (addr([10, 0, 0, 5]), 5),
            (addr([10, 0, 0, 4]), 4),
            (addr([10, 0, 0, 3]), 3),
        ]
    );

    let all = limit_entries(&ranked, true);
    assert_eq!(all, ranked);
}

#[test]
fn rank_and_take_top_on_plain_entries() {
    let entries = vec![(1u32, 5u64), (2, 9), (3, 1), (4, 9)];
    let sorted = rank(&entries);
    assert_eq!(sorted.len(), 4);
    for w in sorted.windows(2) {
        assert!(w[0].1 >= w[1].1);
    }
    assert_eq!(sorted[3], (3, 1));
    let top = take_top(&sorted, 2);
    assert_eq!(top.len(), 2);
    assert_eq!(top[0].1, 9);
    assert_eq!(top[1].1, 9);
    assert_eq!(take_top(&sorted, 10), sorted);
}

#[test]
fn record_mirrors_parsed_fields() {
    let mut agg = Aggregator::new();
    let rec = parse_packet(&ipv4_frame([8, 8, 8, 8], 17)).unwrap();
    agg.record(rec, 1500);
    assert_eq!(agg.packet_count, 1);
    assert_eq!(agg.total_volume, 1500);
    assert_eq!(agg.udp, 1);
    let ranked = agg.finalize();
    assert_eq!(ranked, vec![(addr([8, 8, 8, 8]), 1)]);
}

#[test]
fn wide_and_narrow_addresses_pad_to_fifteen() {
    let frames = vec![
        (ipv4_frame([255, 255, 255, 255], 17), 10),
        (ipv4_frame([1, 2, 3, 4], 17), 10),
        (ipv4_frame([255, 255, 255, 255], 17), 10),
    ];
    let agg = aggregate_frames(&frames).unwrap();
    let ranked = agg.finalize();
    let bytes = render_report(
        agg.total_volume,
        agg.packet_count,
        &ranked,
        agg.udp,
        agg.tcp,
        agg.other,
    );
    let text = String::from_utf8(bytes).unwrap();
    assert!(text.contains("\t255.255.255.255 (2 packets recieved)\n"));
    assert!(text.contains("\t1.2.3.4         (1 packets recieved)\n"));
}
