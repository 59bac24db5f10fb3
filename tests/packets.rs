use std::time::SystemTime;

use telemetry::data::Data;
use telemetry::datainit::{Availability, DataInit, DataLength, DataTier, DataType};
use telemetry::parse::common::Duration;
use telemetry::parse::{Parse, ParserError};
use telemetry::{DataRemove, Packet, PacketData};

fn now() -> Duration {
    let elapsed = SystemTime::now()
        .duration_since(SystemTime::UNIX_EPOCH)
        .unwrap();
    Duration::new(elapsed.as_secs(), elapsed.subsec_nanos())
}

fn motor() -> DataInit {
    DataInit::new(
        "Robot 1".to_owned(),
        "Motor 1".to_owned(),
        DataTier::Raw,
        vec![
            (DataType::F32, DataLength::Single),
            (DataType::Vec3, DataLength::Variable),
            (DataType::I32, DataLength::Fixed(30)),
        ],
        Availability::Always,
    )
}

#[test]
fn round_trip() {
    let timestamp = now();

    let packets = vec![
        Packet::new(timestamp, PacketData::RobotInit("Robot 1".to_owned())),
        Packet::new(timestamp, PacketData::DataInit(motor())),
        Packet::new(
            timestamp,
            PacketData::Data(Data::new(0, 0u16.to_be_bytes().to_vec())),
        ),
        Packet::new(
            timestamp,
            PacketData::Data(Data::new(1, 4u16.to_be_bytes().to_vec())),
        ),
        Packet::new(
            timestamp,
            PacketData::DataRemove(DataRemove::new("Robot 1".to_owned(), "IMU 1".to_owned())),
        ),
        Packet::new(timestamp, PacketData::RobotRemove("Robot 1".to_owned())),
    ];

    let bytes: Vec<u8> = packets
        .iter()
        .flat_map(|v| v.serialise().unwrap())
        .collect();

    let mut input = &bytes[..];

    let mut resulting_packets = Vec::new();

    while let Ok((new_input, packet)) = Packet::deserialise(input) {
        resulting_packets.push(packet);
        input = new_input;
    }

    assert_eq!(packets, resulting_packets);
}

#[test]
fn stream_scenario_leaves_nothing() {
    let timestamp = now();
    let packets = vec![
        Packet::new(timestamp, PacketData::RobotInit("Robot 1".to_owned())),
        Packet::new(timestamp, PacketData::DataInit(motor())),
        Packet::new(timestamp, PacketData::Data(Data::new(0, vec![0, 0]))),
        Packet::new(timestamp, PacketData::RobotRemove("Robot 1".to_owned())),
    ];
    let mut bytes = Vec::new();
    for p in &packets {
        bytes.extend(p.serialise().unwrap());
    }
    let (decoded, rest) = Packet::deserialise_stream(&bytes);
    assert_eq!(decoded, packets);
    assert!(rest.is_empty());
}

#[test]
fn stream_stops_at_incomplete_packet() {
    let p = Packet::new(Duration::new(5, 6), PacketData::RobotInit("R".to_owned()));
    let mut bytes = p.serialise().unwrap();
    bytes.extend([0u8, 0, 0]);
    let (decoded, rest) = Packet::deserialise_stream(&bytes);
    assert_eq!(decoded, vec![p]);
    assert_eq!(rest, &[0u8, 0, 0][..]);
}

#[test]
fn packet_wire_layout() {
    let p = Packet::new(Duration::new(1, 2), PacketData::RobotInit("A".to_owned()));
    assert_eq!(
        p.serialise().unwrap(),
        vec![0, 0, 0, 0, 0, 0, 0, 1, 0, 0, 0, 2, 0, 0, 1, b'A']
    );
    let p = Packet::new(
        Duration::new(0, 0),
        PacketData::DataRemove(DataRemove::new("r".to_owned(), "d".to_owned())),
    );
    assert_eq!(
        p.serialise().unwrap(),
        vec![0, 0, 0, 0, 0, 0, 0, 0, 0, 0, 0, 0, 3, 0, 1, b'r', 0, 1, b'd']
    );
    let p = Packet::new(Duration::new(0, 0), PacketData::Data(Data::new(258, vec![9])));
    assert_eq!(
        p.serialise().unwrap(),
        vec![0, 0, 0, 0, 0, 0, 0, 0, 0, 0, 0, 0, 4, 0, 0, 1, 2, 0, 1, 9]
    );
}

#[test]
fn schema_layout() {
    let init = DataInit::new(
        "R".to_owned(),
        "D".to_owned(),
        DataTier::State,
        vec![(DataType::U8, DataLength::Fixed(30))],
        Availability::Within(Duration::new(1, 0)),
    );
    let bytes = init.serialise().unwrap();
    assert_eq!(
        bytes,
        vec![
            0, 1, b'R', 0, 1, b'D', 3, 0, 1, 12, 1, 0, 30, 2, 0, 0, 0, 0, 0, 0, 0, 1, 0, 0, 0, 0
        ]
    );
    assert_eq!(DataInit::deserialise(&bytes), Ok((&[][..], init)));
}

#[test]
fn enum_tags_follow_declaration_order() {
    assert_eq!(DataTier::Processed.serialise().unwrap(), vec![1]);
    assert_eq!(DataType::Vec3.serialise().unwrap(), vec![14]);
    assert_eq!(DataType::Boolean.serialise().unwrap(), vec![0]);
    assert_eq!(DataLength::Variable.serialise().unwrap(), vec![2]);
    assert_eq!(Availability::Whenever.serialise().unwrap(), vec![1]);
    assert_eq!(DataType::deserialise(&[5, 9]), Ok((&[9u8][..], DataType::I32)));
}

#[test]
fn unknown_tags_are_invalid_variants() {
    assert_eq!(DataTier::deserialise(&[4]), Err(ParserError::InvalidVariant));
    assert_eq!(DataType::deserialise(&[15]), Err(ParserError::InvalidVariant));
    assert_eq!(DataLength::deserialise(&[3, 0, 0]), Err(ParserError::InvalidVariant));
    assert_eq!(Availability::deserialise(&[4]), Err(ParserError::InvalidVariant));
    let mut bytes = vec![0u8; 12];
    bytes.push(5);
    assert_eq!(Packet::deserialise(&bytes), Err(ParserError::InvalidVariant));
    assert_eq!(DataTier::deserialise(&[]), Err(ParserError::Incomplete(1)));
}

#[test]
fn truncated_encodings_are_incomplete() {
    let packets = vec![
        Packet::new(now(), PacketData::RobotInit(String::new())),
        Packet::new(now(), PacketData::DataInit(motor())),
        Packet::new(now(), PacketData::Data(Data::new(3, vec![]))),
        Packet::new(
            now(),
            PacketData::DataRemove(DataRemove::new("a".to_owned(), "b".to_owned())),
        ),
    ];
    for p in &packets {
        let bytes = p.serialise().unwrap();
        assert_eq!(
            Packet::deserialise(&bytes[..bytes.len() - 1]),
            Err(ParserError::Incomplete(1))
        );
    }
    let d = DataInit::new(
        "R".to_owned(),
        "D".to_owned(),
        DataTier::Raw,
        vec![],
        Availability::Within(Duration::new(3, 4)),
    );
    let bytes = d.serialise().unwrap();
    assert_eq!(
        DataInit::deserialise(&bytes[..bytes.len() - 1]),
        Err(ParserError::Incomplete(1))
    );
}

#[test]
fn every_packet_kind_round_trips() {
    let packets = vec![
        Packet::new(Duration::new(u64::MAX, 999_999_999), PacketData::RobotRemove("Robot 2".to_owned())),
        Packet::new(Duration::new(0, 0), PacketData::Data(Data::new(u32::MAX, vec![1, 2, 3]))),
    ];
    for p in packets {
        let mut bytes = p.serialise().unwrap();
        bytes.push(42);
        assert_eq!(Packet::deserialise(&bytes), Ok((&[42u8][..], p)));
    }
}
