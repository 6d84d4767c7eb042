use bytes::{Bytes, BytesMut};
use hbb_common::bytes_codec::{BytesCodec, CodecError};
use std::io;

#[test]
fn test_codec1() {
    let mut codec = BytesCodec::new();
    let mut buf = BytesMut::new();
    let mut bytes: Vec<u8> = Vec::new();
    bytes.resize(0x3F, 1);
    assert!(codec.encode(bytes.into(), &mut buf).is_ok());
    let buf_saved = buf.clone();
    assert_eq!(buf.len(), 0x3F + 1);
    if let Ok(Some(res)) = codec.decode(&mut buf) {
        assert_eq!(res.len(), 0x3F);
        assert_eq!(res[0], 1);
    } else {
        panic!();
    }
    let mut codec2 = BytesCodec::new();
    let mut buf2 = BytesMut::new();
    if let Ok(None) = codec2.decode(&mut buf2) {
    } else {
        panic!();
    }
    buf2.extend(&buf_saved[0..1]);
    if let Ok(None) = codec2.decode(&mut buf2) {
    } else {
        panic!();
    }
    buf2.extend(&buf_saved[1..]);
    if let Ok(Some(res)) = codec2.decode(&mut buf2) {
        assert_eq!(res.len(), 0x3F);
        assert_eq!(res[0], 1);
    } else {
        panic!();
    }
}

#[test]
fn test_codec2() {
    let mut codec = BytesCodec::new();
    let mut buf = BytesMut::new();
    let mut bytes: Vec<u8> = Vec::new();
    assert!(codec.encode("".into(), &mut buf).is_ok());
    assert_eq!(buf.len(), 1);
    bytes.resize(0x3F + 1, 2);
    assert!(codec.encode(bytes.into(), &mut buf).is_ok());
    assert_eq!(buf.len(), 0x3F + 2 + 2);
    if let Ok(Some(res)) = codec.decode(&mut buf) {
        assert_eq!(res.len(), 0);
    } else {
        panic!();
    }
    if let Ok(Some(res)) = codec.decode(&mut buf) {
        assert_eq!(res.len(), 0x3F + 1);
        assert_eq!(res[0], 2);
    } else {
        panic!();
    }
}

#[test]
fn test_codec3() {
    let mut codec = BytesCodec::new();
    let mut buf = BytesMut::new();
    let mut bytes: Vec<u8> = Vec::new();
    bytes.resize(0x3F - 1, 3);
    assert!(codec.encode(bytes.into(), &mut buf).is_ok());
    assert_eq!(buf.len(), 0x3F + 1 - 1);
    if let Ok(Some(res)) = codec.decode(&mut buf) {
        assert_eq!(res.len(), 0x3F - 1);
        assert_eq!(res[0], 3);
    } else {
        panic!();
    }
}
#[test]
fn test_codec4() {
    let mut codec = BytesCodec::new();
    let mut buf = BytesMut::new();
    let mut bytes: Vec<u8> = Vec::new();
    bytes.resize(0x3FFF, 4);
    assert!(codec.encode(bytes.into(), &mut buf).is_ok());
    assert_eq!(buf.len(), 0x3FFF + 2);
    if let Ok(Some(res)) = codec.decode(&mut buf) {
        assert_eq!(res.len(), 0x3FFF);
        assert_eq!(res[0], 4);
    } else {
        panic!();
    }
}

#[test]
fn test_codec5() {
    let mut codec = BytesCodec::new();
    let mut buf = BytesMut::new();
    let mut bytes: Vec<u8> = Vec::new();
    bytes.resize(0x3FFFFF, 5);
    assert!(codec.encode(bytes.into(), &mut buf).is_ok());
    assert_eq!(buf.len(), 0x3FFFFF + 3);
    if let Ok(Some(res)) = codec.decode(&mut buf) {
        assert_eq!(res.len(), 0x3FFFFF);
        assert_eq!(res[0], 5);
    } else {
        panic!();
    }
}

#[test]
fn test_codec6() {
    let mut codec = BytesCodec::new();
    let mut buf = BytesMut::new();
    let mut bytes: Vec<u8> = Vec::new();
    bytes.resize(0x3FFFFF + 1, 6);
    assert!(codec.encode(bytes.into(), &mut buf).is_ok());
    let buf_saved = buf.clone();
    assert_eq!(buf.len(), 0x3FFFFF + 4 + 1);
    if let Ok(Some(res)) = codec.decode(&mut buf) {
        assert_eq!(res.len(), 0x3FFFFF + 1);
        assert_eq!(res[0], 6);
    } else {
        panic!();
    }
    let mut codec2 = BytesCodec::new();
    let mut buf2 = BytesMut::new();
    buf2.extend(&buf_saved[0..1]);
    if let Ok(None) = codec2.decode(&mut buf2) {
    } else {
        panic!();
    }
    buf2.extend(&buf_saved[1..6]);
    if let Ok(None) = codec2.decode(&mut buf2) {
    } else {
        panic!();
    }
    buf2.extend(&buf_saved[6..]);
    if let Ok(Some(res)) = codec2.decode(&mut buf2) {
        assert_eq!(res.len(), 0x3FFFFF + 1);
        assert_eq!(res[0], 6);
    } else {
        panic!();
    }
}

#[test]
fn test_codec7() {
    // Wrapper: forwards decode only; no decode_eof -> triggers trait default decode_eof (errors when bytes remain)
    struct DefaultEof<'a>(&'a mut BytesCodec);
    impl<'a> tokio_util::codec::Decoder for DefaultEof<'a> {
        type Item = BytesMut;
        type Error = io::Error;
        fn decode(&mut self, src: &mut BytesMut) -> Result<Option<BytesMut>, io::Error> {
            self.0
                .decode(src)
                .map_err(|_| io::Error::new(io::ErrorKind::InvalidData, "Too big packet"))
        }
    }

    // A) Incomplete header: default decode_eof reproduces "bytes remaining on stream"
    let len = 0x40usize; // needs 2-byte header
    let h = ((len as u16) << 2) | 0x1;
    let mut codec_def = BytesCodec::new();
    let mut wrapper = DefaultEof(&mut codec_def);
    let mut buf = BytesMut::new();
    buf.extend_from_slice(&[(h & 0xFF) as u8]); // only low byte -> header incomplete
    let err = tokio_util::codec::Decoder::decode_eof(&mut wrapper, &mut buf).unwrap_err();
    assert_eq!(err.kind(), io::ErrorKind::Other);

    // Our decode_eof: no error, returns None (does not clear buf)
    let mut codec_ok = BytesCodec::new();
    let mut buf2 = BytesMut::new();
    buf2.extend_from_slice(&[(h & 0xFF) as u8]);
    let res = codec_ok.decode_eof(&mut buf2).unwrap();
    assert!(res.is_none());
    assert!(!buf2.is_empty());

    // B) Incomplete body: default decode_eof still errors
    let len2 = 2usize;
    let h2 = ((len2 as u16) << 2) | 0x1;
    let mut codec_def2 = BytesCodec::new();
    let mut wrapper2 = DefaultEof(&mut codec_def2);
    let mut buf3 = BytesMut::new();
    buf3.extend_from_slice(&[(h2 & 0xFF) as u8, (h2 >> 8) as u8]); // header complete
    buf3.extend_from_slice(&[0xAA]); // only 1 data byte, missing 1
    let err2 = tokio_util::codec::Decoder::decode_eof(&mut wrapper2, &mut buf3).unwrap_err();
    assert_eq!(err2.kind(), io::ErrorKind::Other);

    // New decode_eof: no error, returns None (does not clear buf)
    let mut codec_ok2 = BytesCodec::new();
    let mut buf4 = BytesMut::new();
    buf4.extend_from_slice(&[(h2 & 0xFF) as u8, (h2 >> 8) as u8]);
    buf4.extend_from_slice(&[0xAA]);
    let res2 = codec_ok2.decode_eof(&mut buf4).unwrap();
    assert!(res2.is_none());
    assert!(!buf4.is_empty());

    // C) At EOF with a complete frame, still decodes correctly
    let mut encoded = BytesMut::new();
    encoded.extend_from_slice(&[((3usize << 2) as u8)]);
    encoded.extend_from_slice(b"abc");
    let mut codec_ok3 = BytesCodec::new();
    let mut buf5 = encoded.clone();
    if let Some(frame) =
        codec_ok3.decode_eof(&mut buf5).unwrap()
    {
        assert_eq!(frame, BytesMut::from(&b"abc"[..]));
    } else {
        panic!();
    }
}

#[test]
fn test_codec8() {
    // Prepare two encoded frames: "hello" and "world!"
    let mut encoder = BytesCodec::new();
    let mut f1 = BytesMut::new();
    let mut f2 = BytesMut::new();
    assert!(encoder.encode("hello".into(), &mut f1).is_ok());
    assert!(encoder.encode("world!".into(), &mut f2).is_ok());

    // Case 1: append half of frame1, then append the remaining half -> decode frame1
    {
        let mut codec = BytesCodec::new();
        let mut buf = BytesMut::new();
        let mid = f1.len() / 2;
        buf.extend_from_slice(&f1[..mid]);
        // Not enough for a frame yet
        assert!(matches!(codec.decode(&mut buf).unwrap(), None));
        // Append the rest of frame1
        buf.extend_from_slice(&f1[mid..]);
        // Now we should get frame1
        if let Some(frame) = codec.decode(&mut buf).unwrap() {
            assert_eq!(frame, BytesMut::from(&b"hello"[..]));
        } else {
            panic!();
        }
        // No more frames
        assert!(codec.decode(&mut buf).unwrap().is_none());
    }

    // Case 2: append half of frame1, then append remaining of frame1 plus entire frame2
    // Expect to decode frame1 first, then frame2 on next decode call
    {
        let mut codec = BytesCodec::new();
        let mut buf = BytesMut::new();
        let mid = f1.len() / 2;
        buf.extend_from_slice(&f1[..mid]);
        assert!(codec.decode(&mut buf).unwrap().is_none());
        // Append rest of frame1 and all of frame2
        buf.extend_from_slice(&f1[mid..]);
        buf.extend_from_slice(&f2);
        // First decode returns frame1
        if let Some(frame1) = codec.decode(&mut buf).unwrap() {
            assert_eq!(frame1, BytesMut::from(&b"hello"[..]));
        } else {
            panic!();
        }
        // Second decode returns frame2
        if let Some(frame2) = codec.decode(&mut buf).unwrap() {
            assert_eq!(frame2, BytesMut::from(&b"world!"[..]));
        } else {
            panic!();
        }
        // No more frames
        assert!(codec.decode(&mut buf).unwrap().is_none());
    }

    // Case 3: append frame1 completely and half of frame2, then append the remaining of frame2
    // Expect to decode frame1 immediately, then frame2 after remaining bytes arrive
    {
        let mut codec = BytesCodec::new();
        let mut buf = BytesMut::new();
        let mid2 = f2.len() / 2;
        buf.extend_from_slice(&f1);
        buf.extend_from_slice(&f2[..mid2]);
        // First decode returns frame1
        if let Some(frame1) = codec.decode(&mut buf).unwrap() {
            assert_eq!(frame1, BytesMut::from(&b"hello"[..]));
        } else {
            panic!();
        }
        // Not enough for frame2 yet
        assert!(codec.decode(&mut buf).unwrap().is_none());
        // Append the rest of frame2
        buf.extend_from_slice(&f2[mid2..]);
        // Now we should get frame2
        if let Some(frame2) = codec.decode(&mut buf).unwrap() {
            assert_eq!(frame2, BytesMut::from(&b"world!"[..]));
        } else {
            panic!();
        }
        assert!(codec.decode(&mut buf).unwrap().is_none());
    }
}

fn payload(codec: &mut BytesCodec, buf: &mut BytesMut) -> Vec<u8> {
    codec.decode(buf).unwrap().unwrap().to_vec()
}

#[test]
fn heads_are_little_endian() {
    let cases: [(usize, &[u8]); 6] = [
        (0, &[0x00]),
        (1, &[0x04]),
        (0x3F, &[0xFC]),
        (0x40, &[0x01, 0x01]),
        (0x3FFF, &[0xFD, 0xFF]),
        (0x4000, &[0x02, 0x00, 0x01]),
    ];
    for (len, head) in cases {
        let mut codec = BytesCodec::new();
        let mut buf = BytesMut::new();
        codec.encode(Bytes::from(vec![9u8; len]), &mut buf).unwrap();
        assert_eq!(&buf[..head.len()], head);
        assert_eq!(buf.len(), head.len() + len);
    }
    let mut codec = BytesCodec::new();
    let mut buf = BytesMut::new();
    codec.encode(Bytes::from(vec![9u8; 0x40_0000]), &mut buf).unwrap();
    assert_eq!(&buf[..4], &[0x03, 0x00, 0x00, 0x01]);
}

#[test]
fn encode_appends_to_what_is_there() {
    let mut codec = BytesCodec::default();
    let mut buf = BytesMut::from(&b"before"[..]);
    codec.encode(Bytes::from_static(b"abc"), &mut buf).unwrap();
    assert_eq!(&buf[..], b"before\x0cabc");
}

#[test]
fn too_big_packet_is_refused_and_left_in_place() {
    let mut codec = BytesCodec::new();
    codec.set_max_packet_length(3);
    let mut buf = BytesMut::new();
    codec.encode(Bytes::from_static(b"abcd"), &mut buf).unwrap();
    assert_eq!(codec.decode(&mut buf).unwrap_err(), CodecError::TooBigPacket);
    assert_eq!(&buf[..], b"\x10abcd");
    assert_eq!(codec.decode_eof(&mut buf).unwrap_err(), CodecError::TooBigPacket);
    codec.set_max_packet_length(4);
    assert_eq!(payload(&mut codec, &mut buf), b"abcd");
    assert!(buf.is_empty());
}

#[test]
fn raw_mode_passes_bytes_through() {
    let mut codec = BytesCodec::new();
    codec.set_raw();
    let mut buf = BytesMut::new();
    assert!(codec.decode(&mut buf).unwrap().is_none());
    codec.encode(Bytes::from_static(b"abc"), &mut buf).unwrap();
    codec.encode(Bytes::from_static(b"def"), &mut buf).unwrap();
    assert_eq!(&buf[..], b"abcdef");
    assert_eq!(payload(&mut codec, &mut buf), b"abcdef");
    assert!(buf.is_empty());
}

#[test]
fn any_cut_of_a_stream_gives_the_same_frames() {
    let mut encoder = BytesCodec::new();
    let mut stream = BytesMut::new();
    let payloads: [Vec<u8>; 4] = [vec![1; 5], vec![], vec![2; 0x50], vec![3; 0x3F]];
    for p in payloads.iter() {
        encoder.encode(Bytes::from(p.clone()), &mut stream).unwrap();
    }
    for step in [1usize, 2, 3, 7, 64, 1000] {
        let mut codec = BytesCodec::new();
        let mut buf = BytesMut::new();
        let mut frames: Vec<Vec<u8>> = vec![];
        for chunk in stream.chunks(step) {
            buf.extend_from_slice(chunk);
            while let Some(frame) = codec.decode(&mut buf).unwrap() {
                frames.push(frame.to_vec());
            }
        }
        assert_eq!(frames, payloads);
        assert!(buf.is_empty());
    }
}

#[test]
fn a_frame_beyond_the_longest_head_overflows() {
    let mut codec = BytesCodec::new();
    let mut buf = BytesMut::from(&b"kept"[..]);
    let data = Bytes::from(vec![0u8; 0x4000_0000]);
    assert_eq!(codec.encode(data, &mut buf).unwrap_err(), CodecError::Overflow);
    assert_eq!(&buf[..], b"kept");
}
