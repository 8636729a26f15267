use hidebox::chunk::make_chunk;
use hidebox::decoder::{
    self, check_boundary, decode_chunk, has_append_file, magic_offset, read_chunk_len, Decoder,
};
use hidebox::encoder::{self, Encoder};
use hidebox::error::HideError;
use hidebox::file::{FileSpec, HideSpec};
use hidebox::format::{magic_bytes, CHUNK_LEN_SIZE, CHUNK_SIZE, MAX_FILE_SIZE};
use hidebox::progress::{progress_percent, CancelFlag, Flow};
use hidebox::text::random_string;
use hidebox::trailer::{hide_spec_field_offset, hide_spec_location, make_trailer, open_hide_spec};

fn file_spec(name: &str, size: u64) -> FileSpec {
    FileSpec { path: name.to_string(), name: name.to_string(), size }
}

fn spec_text(name: &str, append_size: u64, src_size: u64) -> String {
    format!(
        "{{\"append_name\":\"{}\",\"append_size\":{},\"src_size\":{}}}",
        name, append_size, src_size
    )
}

/// Cuts `data` the way successive reads of at most `CHUNK_SIZE` bytes may,
/// taking the read sizes from `sizes` in turn, then an empty read.
fn reads<'a>(data: &'a [u8], sizes: &[usize]) -> Vec<&'a [u8]> {
    let mut out = Vec::new();
    let mut pos = 0;
    let mut k = 0;
    while pos < data.len() {
        let want = if sizes.is_empty() { CHUNK_SIZE } else { sizes[k % sizes.len()] };
        let end = (pos + want.min(CHUNK_SIZE)).min(data.len());
        out.push(&data[pos..end]);
        pos = end;
        k += 1;
    }
    out.push(&data[data.len()..]);
    out
}

/// Runs the encoder over in-memory carrier and append bytes, read in full blocks.
fn encode_bytes(carrier: &[u8], append: &[u8], name: &str, password: &str) -> Vec<u8> {
    encode_with_reads(carrier, append, name, password, &[])
}

/// Runs the encoder as the driver does, with reads of the sizes `sizes`.
fn encode_with_reads(
    carrier: &[u8],
    append: &[u8],
    name: &str,
    password: &str,
    sizes: &[usize],
) -> Vec<u8> {
    let src = file_spec("carrier", carrier.len() as u64);
    let app = file_spec(name, append.len() as u64);
    let mut enc = Encoder::new(&src, &app);
    let mut out = Vec::new();
    for block in reads(carrier, sizes) {
        out.extend_from_slice(block);
        match enc.block_written(block.len(), false) {
            Flow::Next { more, .. } => {
                if !more {
                    break;
                }
            }
            Flow::Cancelled => panic!("not cancelled"),
        }
    }
    out.extend_from_slice(&magic_bytes());
    for block in reads(append, sizes) {
        if block.is_empty() {
            break;
        }
        let chunk = enc.append_block(password, block).unwrap();
        out.extend_from_slice(&chunk);
        match enc.block_written(block.len(), false) {
            Flow::Next { more, .. } => {
                if !more {
                    break;
                }
            }
            Flow::Cancelled => panic!("not cancelled"),
        }
    }
    let spec = enc.hide_spec(name.to_string());
    let text = spec_text(&spec.append_name, spec.append_size, spec.src_size);
    out.extend_from_slice(&make_trailer(password, text.as_bytes()).unwrap());
    out
}

/// Reads the trailer of an in-memory file back into its hide-spec.
fn hide_spec_of(file: &[u8], password: &str) -> Result<HideSpec, HideError> {
    let size = file.len() as u64;
    let off = hide_spec_field_offset(size)? as usize;
    let (start, len) = hide_spec_location(size, &file[off..off + CHUNK_LEN_SIZE])?;
    let start = start as usize;
    let text = open_hide_spec(password, &file[start..start + len])?;
    let value: serde_json::Value =
        serde_json::from_slice(&text).map_err(|_| HideError::WrongPassword)?;
    let field = |key: &str| value.get(key).ok_or(HideError::WrongPassword);
    Ok(HideSpec {
        append_name: field("append_name")?.as_str().ok_or(HideError::WrongPassword)?.to_string(),
        append_size: field("append_size")?.as_u64().ok_or(HideError::WrongPassword)?,
        src_size: field("src_size")?.as_u64().ok_or(HideError::WrongPassword)?,
    })
}

/// Runs the decoder over an in-memory file.
fn decode_bytes(file: &[u8], password: &str) -> Result<Vec<u8>, HideError> {
    let spec = hide_spec_of(file, password)?;
    let mut pos = spec.src_size as usize;
    check_boundary(&file[pos..pos + 7])?;
    pos += 7;
    let mut dec = Decoder::new(&spec);
    let mut out = Vec::new();
    loop {
        let field = &file[pos..pos + CHUNK_LEN_SIZE];
        let len = read_chunk_len(field)?;
        let payload = &file[pos + CHUNK_LEN_SIZE..pos + CHUNK_LEN_SIZE + len];
        let cs = decode_chunk(password, field, payload)?;
        out.extend_from_slice(&cs.data);
        pos += CHUNK_LEN_SIZE + len;
        match dec.block_written(len, false) {
            Flow::Next { more, .. } => {
                if !more {
                    break;
                }
            }
            Flow::Cancelled => panic!("not cancelled"),
        }
    }
    Ok(out)
}

#[test]
fn concrete_scenario_ten_byte_carrier_and_five_thousand_byte_append() {
    let carrier = b"0123456789".to_vec();
    let append = random_string(5000).into_bytes();
    let file = encode_bytes(&carrier, &append, "append.dat", "123456");

    let first = make_chunk("123456", &append[..4096]).unwrap();
    let second = make_chunk("123456", &append[4096..]).unwrap();
    let spec = hide_spec_of(&file, "123456").unwrap();
    assert_eq!(spec.append_name, "append.dat");
    assert_eq!(spec.src_size, 10);
    assert_eq!(spec.append_size, (first.len() + second.len()) as u64);
    let trailer_len = file.len() - 10 - 7 - first.len() - second.len();
    let text = spec_text("append.dat", spec.append_size, 10);
    let trailer = make_trailer("123456", text.as_bytes()).unwrap();
    assert_eq!(trailer_len, trailer.len());
    assert_eq!(&file[17..17 + first.len()], &first[..]);
    assert_eq!(&file[17 + first.len()..17 + first.len() + second.len()], &second[..]);
    assert_eq!(&file[file.len() - trailer.len()..], &trailer[..]);
    let field_off = file.len() - 15;
    let e_len = trailer.len() - 15;
    assert_eq!(file.len(), 10 + 7 + first.len() + second.len() + e_len + 8 + 7);
    assert_eq!(&file[field_off..field_off + 8], format!("{:8x}", e_len).as_bytes());
    assert_eq!(&file[..10], &carrier[..]);
    assert_eq!(&file[10..17], b"HIDEBOX");
    assert_eq!(&file[file.len() - 7..], b"HIDEBOX");

    assert_eq!(decode_bytes(&file, "123456").unwrap(), append);
    assert!(matches!(decode_bytes(&file, "wrong"), Err(HideError::WrongPassword)));
}

#[test]
fn encode_then_decode_gives_the_append_file_back() {
    for (carrier_len, append_len) in [(0usize, 1usize), (1, 4096), (5000, 4097), (9000, 20000)] {
        let carrier = random_string(carrier_len).into_bytes();
        let append = random_string(append_len).into_bytes();
        let file = encode_bytes(&carrier, &append, "a.bin", "pw");
        assert_eq!(&file[..carrier_len], &carrier[..]);
        assert!(has_append_file(file.len() as u64, &file[file.len() - 7..]));
        assert_eq!(decode_bytes(&file, "pw").unwrap(), append);
    }
}

#[test]
fn has_append_file_needs_size_and_marker() {
    assert!(!has_append_file(7, b"HIDEBOX"));
    assert!(!has_append_file(100, b"HIDEBOY"));
    assert!(has_append_file(100, b"HIDEBOX"));
    assert_eq!(magic_offset(7), None);
    assert_eq!(magic_offset(100), Some(93));
}

#[test]
fn plain_file_has_no_append_file_or_hide_spec() {
    let plain = b"just an ordinary file with no payload".to_vec();
    assert!(!has_append_file(plain.len() as u64, &plain[plain.len() - 7..]));
    assert!(matches!(hide_spec_field_offset(15), Err(HideError::NoHideSpec)));
    assert_eq!(hide_spec_field_offset(16), Ok(1));
}

#[test]
fn trailer_round_trips_and_locates() {
    let text = spec_text("x.txt", 123, 45);
    let trailer = make_trailer("pw", text.as_bytes()).unwrap();
    assert_eq!(&trailer[trailer.len() - 7..], b"HIDEBOX");
    let mut file = b"prefix".to_vec();
    file.extend_from_slice(&trailer);
    let size = file.len() as u64;
    let off = hide_spec_field_offset(size).unwrap() as usize;
    let (start, len) = hide_spec_location(size, &file[off..off + 8]).unwrap();
    assert_eq!(start, 6);
    assert_eq!(len, trailer.len() - 15);
    let opened = open_hide_spec("pw", &file[6..6 + len]).unwrap();
    assert_eq!(opened, text.as_bytes());
}

#[test]
fn trailer_location_errors() {
    assert!(matches!(hide_spec_location(100, b"        "), Err(HideError::EmptyLength)));
    assert!(matches!(hide_spec_location(100, b"   xyz  "), Err(HideError::InvalidLength)));
    assert!(matches!(hide_spec_location(100_000, b"    1001"), Err(HideError::InvalidHideSpec)));
    assert!(matches!(hide_spec_location(20, b"      10"), Err(HideError::InvalidHideSpec)));
    assert_eq!(hide_spec_location(31, b"      10"), Ok((0, 16)));
}

#[test]
fn open_hide_spec_rejects_garbage() {
    assert!(matches!(open_hide_spec("pw", b"not base64!"), Err(HideError::WrongPassword)));
}

#[test]
fn chunk_length_field_errors() {
    assert_eq!(read_chunk_len(b"    4000"), Ok(0x4000));
    assert!(matches!(read_chunk_len(b"    4001"), Err(HideError::ChunkTooLarge)));
    assert!(matches!(read_chunk_len(b"        "), Err(HideError::EmptyLength)));
    assert!(matches!(read_chunk_len(b"  -12   "), Err(HideError::InvalidLength)));
}

#[test]
fn boundary_marker_is_checked() {
    assert_eq!(check_boundary(b"HIDEBOX"), Ok(()));
    assert!(matches!(check_boundary(b"hidebox"), Err(HideError::MarkerNotFound)));
}

#[test]
fn decode_chunk_rejects_short_payload() {
    assert!(matches!(decode_chunk("pw", b"      1f", &[b'a'; 31]), Err(HideError::BufferTooSmall)));
}

#[test]
fn decode_chunk_reassembles_field_and_payload() {
    let chunk = make_chunk("pw", b"payload").unwrap();
    let cs = decode_chunk("pw", &chunk[..8], &chunk[8..]).unwrap();
    assert_eq!(cs.data, b"payload".to_vec());
}

#[test]
fn progress_percent_values() {
    assert_eq!(progress_percent(5, 10), 50);
    assert_eq!(progress_percent(1, 3), 33);
    assert_eq!(progress_percent(10, 10), 100);
    assert_eq!(progress_percent(0, 0), 100);
    assert_eq!(progress_percent(u64::MAX, 1), u32::MAX);
}

#[test]
fn encoder_reports_progress_every_ten_blocks() {
    let mut enc = Encoder::new(&file_spec("s", 100 * 4096), &file_spec("a", 0));
    for i in 1..=25u64 {
        let flow = enc.block_written(CHUNK_SIZE, false);
        let expected = if i % 10 == 0 { Some((i * 100 / 100) as u32) } else { None };
        assert_eq!(flow, Flow::Next { progress: expected, more: true });
    }
    assert_eq!(enc.block_written(10, false), Flow::Next { progress: None, more: true });
    assert_eq!(enc.current, 25 * 4096 + 10);
    assert_eq!(enc.block_written(0, false), Flow::Next { progress: None, more: false });
    assert_eq!(enc.chunks, 26);
}

#[test]
fn cancellation_stops_and_resets() {
    let mut flag = CancelFlag::new();
    assert!(!flag.is_set());
    encoder::cancel(&mut flag);
    assert!(flag.is_set());
    let mut enc = Encoder::new(&file_spec("s", 8192), &file_spec("a", 10));
    assert_eq!(enc.block_written(CHUNK_SIZE, flag.is_set()), Flow::Cancelled);
    flag.reset();
    assert!(!flag.is_set());
    let mut enc2 = Encoder::new(&file_spec("s", 8192), &file_spec("a", 10));
    assert_eq!(enc2.block_written(CHUNK_SIZE, flag.is_set()), Flow::Next { progress: None, more: true });

    let mut dflag = CancelFlag::new();
    decoder::cancel(&mut dflag);
    let mut dec = Decoder::new(&HideSpec { append_name: "a".into(), append_size: 1000, src_size: 0 });
    assert_eq!(dec.block_written(100, dflag.is_set()), Flow::Cancelled);
}

#[test]
fn oversized_chunk_stream_is_refused() {
    let mut enc = Encoder::new(&file_spec("s", 0), &file_spec("a", 4096));
    enc.encrypted_size = MAX_FILE_SIZE - 100;
    assert!(matches!(enc.append_block("pw", &[1u8; 4096]), Err(HideError::TooLarge)));
    assert_eq!(enc.encrypted_size, MAX_FILE_SIZE - 100);
    let c = enc.append_block("pw", &[1u8; 5]).unwrap();
    assert_eq!(c.len(), 64);
    assert_eq!(enc.encrypted_size, MAX_FILE_SIZE - 36);
}

#[test]
fn decoder_stops_at_recorded_size() {
    let mut dec = Decoder::new(&HideSpec { append_name: "a".into(), append_size: 100, src_size: 0 });
    assert_eq!(dec.block_written(50, false), Flow::Next { progress: None, more: true });
    assert_eq!(dec.current, 58);
    assert_eq!(dec.block_written(34, false), Flow::Next { progress: None, more: false });
    assert_eq!(dec.current, 100);
}

#[test]
fn short_reads_do_not_end_an_input() {
    let carrier = random_string(9000).into_bytes();
    let append = random_string(10000).into_bytes();
    let file = encode_with_reads(&carrier, &append, "a.bin", "pw", &[100, 4096, 7, 3000]);
    assert_eq!(&file[..9000], &carrier[..]);
    assert_eq!(&file[9000..9007], b"HIDEBOX");
    assert_eq!(decode_bytes(&file, "pw").unwrap(), append);
}

#[test]
fn short_block_keeps_the_encoder_reading() {
    let mut enc = Encoder::new(&file_spec("s", 8192), &file_spec("a", 0));
    assert_eq!(enc.block_written(100, false), Flow::Next { progress: None, more: true });
    assert_eq!(enc.block_written(0, false), Flow::Next { progress: None, more: false });
    assert_eq!(enc.current, 100);
}

#[test]
fn oversized_hide_spec_is_refused() {
    let long_name = "n".repeat(5000);
    let text = spec_text(&long_name, 1, 1);
    assert!(matches!(make_trailer("pw", text.as_bytes()), Err(HideError::TooLarge)));
}
