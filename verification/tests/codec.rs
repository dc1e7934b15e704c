use game_relay::netconnection::codec::{
    NetConnectionCodec, NetConnectionCodecDecoder, NetConnectionCodecEncoder,
    NetConnectionCodecError,
};
use game_relay::netconnection::netconnection::NetConnectionMessage;
use tokio_util::bytes::{Bytes, BytesMut};

fn message(data: &'static [u8], compressed: bool) -> NetConnectionMessage {
    NetConnectionMessage {
        source_netid: 5,
        destination_netid: 0x0102030405060708,
        compressed,
        data: Bytes::from_static(data),
    }
}

const FRAME: [u8; 27] = [
    0xDE, 0, 0, 0, 19, 0, 0, 0xCA, 0, 0, 0, 0, 0, 0, 0, 5, 1, 2, 3, 4, 5, 6, 7, 8, b'a', b'b', b'c',
];

#[test]
fn codec_roundtrip_small() {
    let mut codec = NetConnectionCodec::new();
    let mut buf = BytesMut::new();
    codec.encode(message(b"abc", true), &mut buf).unwrap();
    let got = codec.decode(&mut buf).unwrap().unwrap();
    assert_eq!(got.source_netid, 5);
    assert_eq!(got.destination_netid, 0x0102030405060708);
    assert!(got.compressed);
    assert_eq!(&got.data[..], b"abc");
    assert!(buf.is_empty());
}

#[test]
fn codec_bytes_of_a_frame() {
    let mut buf = BytesMut::new();
    NetConnectionCodecEncoder::encode_message(message(b"abc", false), &mut buf).unwrap();
    assert_eq!(&buf[..], &FRAME[..]);
    buf.clear();
    NetConnectionCodecEncoder::encode_message(message(b"abc", true), &mut buf).unwrap();
    assert_eq!(buf[6], 1);
}

#[test]
fn codec_in_pieces() {
    let mut decoder = NetConnectionCodecDecoder::new();
    let mut buf = BytesMut::new();
    for (i, b) in FRAME.iter().enumerate() {
        buf.extend_from_slice(&[*b]);
        assert!(decoder.can_decode(&buf));
        let got = decoder.decode(&mut buf).unwrap();
        assert_eq!(got.is_some(), i == FRAME.len() - 1);
    }
}

#[test]
fn codec_messages_in_order() {
    let mut encoder = NetConnectionCodecEncoder::new();
    let mut buf = BytesMut::new();
    let texts: [&'static [u8]; 3] = [b"one", b"", b"three"];
    for t in texts {
        encoder.encode(message(t, false), &mut buf).unwrap();
    }
    let mut decoder = NetConnectionCodecDecoder::new();
    for t in texts {
        assert_eq!(&decoder.decode(&mut buf).unwrap().unwrap().data[..], t);
    }
    assert!(decoder.decode(&mut buf).unwrap().is_none());
}

#[test]
fn codec_wrong_magic() {
    let mut decoder = NetConnectionCodecDecoder::new();
    let mut buf = BytesMut::from(&[1u8, 2, 3, 4, 5, 6, 7, 8, 9][..]);
    let e = decoder.decode(&mut buf).unwrap_err();
    assert_eq!(e, NetConnectionCodecError::HeaderMagic(0x0102030405060708));
    assert_eq!(e.to_text(), "Message header magic error 102030405060708");
    assert_eq!(&buf[..], &[9]);
}

#[test]
fn codec_wrong_length() {
    let mut decoder = NetConnectionCodecDecoder::new();
    let mut buf = BytesMut::from(&[0xDEu8, 0x02, 0, 0, 0, 0, 0, 0xCA][..]);
    let e = decoder.decode(&mut buf).unwrap_err();
    assert_eq!(e, NetConnectionCodecError::WrongLength(0x02000008));
    assert_eq!(e.to_text(), "Message length error 33554440");

    let big = NetConnectionMessage {
        source_netid: 1,
        destination_netid: 2,
        compressed: false,
        data: Bytes::from(vec![0u8; 33554432 - 23]),
    };
    let mut out = BytesMut::new();
    assert_eq!(
        NetConnectionCodecEncoder::encode_message(big, &mut out),
        Err(NetConnectionCodecError::WrongLength(33554433))
    );
    assert!(out.is_empty());
}

#[test]
fn codec_at_the_end_of_a_stream() {
    let mut decoder = NetConnectionCodecDecoder::new();
    let mut buf = BytesMut::from(&FRAME[..10]);
    let e = decoder.decode_eof(&mut buf).unwrap_err();
    assert_eq!(e, NetConnectionCodecError::BytesRemaining(2));
    assert_eq!(e.to_text(), "Stream bytes remaining after EOF 2");
    assert_eq!(NetConnectionCodecError::UnknownState.to_text(), "Unknown state");

    let mut codec = NetConnectionCodec::new();
    let mut none = BytesMut::new();
    assert!(codec.decode_eof(&mut none).unwrap().is_none());
    let mut all = BytesMut::from(&FRAME[..]);
    assert!(codec.decode_eof(&mut all).unwrap().is_some());
}

#[test]
fn codec_refuses_messages_without_room_for_netids() {
    let decoder = NetConnectionCodecDecoder::new();
    let mut buf = BytesMut::from(&[0xDEu8, 0, 0, 0, 1, 0, 0, 0xCA][..]);
    assert!(decoder.can_decode(&buf));
    buf.extend_from_slice(&[0]);
    assert!(!decoder.can_decode(&buf));
    assert!(!NetConnectionCodec::new().can_decode(&buf));
}

#[test]
fn header_of_a_message() {
    let (header, size) = message(b"abc", true).generate_header().unwrap();
    assert_eq!(header, 0xDE000000130001CA);
    assert_eq!(size, 27);
}
