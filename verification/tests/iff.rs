use four_cc::FourCC;
use remglk::constants::giblorb_err_Format;
use remglk::iff::{getbuf, getpos, parse_iff, read4, read_four_cc, setpos};
use remglk::stream::{GlkStream, SeekMode};

fn be(n: u32) -> [u8; 4] {
    n.to_be_bytes()
}

fn blorb(chunks: &[(&[u8; 4], &[u8], bool)]) -> Vec<u8> {
    let mut body: Vec<u8> = b"IFRS".to_vec();
    for (kind, data, pad) in chunks {
        body.extend_from_slice(*kind);
        body.extend_from_slice(&be(data.len() as u32));
        body.extend_from_slice(data);
        if data.len() % 2 == 1 && *pad {
            body.push(0);
        }
    }
    let mut file = b"FORM".to_vec();
    file.extend_from_slice(&be(body.len() as u32));
    file.extend(body);
    file
}

#[test]
fn parses_chunks_end_to_end() {
    let data = blorb(&[(b"RIdx", &[0, 0, 0, 0], true), (b"PNG ", &[1, 2, 3], true), (b"JPEG", &[9, 9], true)]);
    let len = data.len() as u32;
    let mut s = GlkStream::new(data);
    let chunks = parse_iff(&mut s).unwrap();
    assert_eq!(chunks.len(), 3);
    assert!(chunks[0].chunktype == FourCC(*b"RIdx"));
    assert_eq!(u32::from(chunks[1].chunktype), 0x504E4720);
    assert!(chunks[2].chunktype == FourCC(*b"JPEG"));
    assert_eq!((chunks[0].offset_header, chunks[0].offset_data, chunks[0].length), (12, 20, 4));
    assert_eq!((chunks[1].offset_header, chunks[1].offset_data, chunks[1].length), (24, 32, 3));
    assert_eq!((chunks[2].offset_header, chunks[2].offset_data, chunks[2].length), (36, 44, 2));
    assert_eq!(getpos(&mut s), len);
}

#[test]
fn rejects_non_form_files() {
    let mut data = blorb(&[(b"RIdx", &[0, 0, 0, 0], true)]);
    data[0] = b'X';
    let mut s = GlkStream::new(data);
    assert_eq!(parse_iff(&mut s).err(), Some(giblorb_err_Format));
    assert_eq!(getpos(&mut s), 4);
    let mut empty = GlkStream::new(Vec::new());
    assert_eq!(parse_iff(&mut empty).err(), Some(giblorb_err_Format));
}

#[test]
fn rejects_chunks_that_overrun_the_file() {
    let mut data = blorb(&[(b"RIdx", &[0, 0, 0, 0], true)]);
    data[19] = 6;
    let mut s = GlkStream::new(data);
    assert_eq!(parse_iff(&mut s).err(), Some(giblorb_err_Format));
    assert_eq!(getpos(&mut s), 20);
}

#[test]
fn accepts_a_missing_final_pad_byte() {
    let data = blorb(&[(b"RIdx", &[0, 0, 0, 0], true), (b"TEXT", &[7, 7, 7], false)]);
    let mut s = GlkStream::new(data);
    let chunks = parse_iff(&mut s).unwrap();
    assert_eq!(chunks.len(), 2);
    assert_eq!(chunks[1].length, 3);
}

#[test]
fn walks_past_an_undercounted_form_length() {
    let mut data = blorb(&[(b"RIdx", &[0, 0, 0, 0], true), (b"PNG ", &[1, 2], true)]);
    data[7] = 4;
    let mut s = GlkStream::new(data);
    assert_eq!(parse_iff(&mut s).unwrap().len(), 2);
}

#[test]
fn a_bare_form_header_has_no_chunks() {
    let mut s = GlkStream::new(b"FORM\0\0\0\x04IFRS".to_vec());
    assert_eq!(parse_iff(&mut s).unwrap().len(), 0);
}

#[test]
fn read4_is_big_endian_and_runs_out_to_all_ones() {
    let mut s = GlkStream::new(vec![0x12, 0x34, 0x56, 0x78, 0x9A]);
    assert_eq!(read4(&mut s), 0x12345678);
    assert_eq!(getpos(&mut s), 4);
    assert_eq!(read4(&mut s), 0xFFFFFFFF);
    assert_eq!(getpos(&mut s), 5);
    setpos(&mut s, 1);
    assert!(read_four_cc(&mut s) == FourCC([0x34, 0x56, 0x78, 0x9A]));
}

#[test]
fn setpos_clamps_to_the_stream() {
    let mut s = GlkStream::new(vec![1, 2, 3]);
    setpos(&mut s, 10);
    assert_eq!(getpos(&mut s), 3);
    setpos(&mut s, 0x8000_0000);
    assert_eq!(getpos(&mut s), 0);
    s.set_position(SeekMode::End, -1);
    assert_eq!(getpos(&mut s), 2);
    s.set_position(SeekMode::Current, -5);
    assert_eq!(getpos(&mut s), 0);
}

#[test]
fn getbuf_reads_and_zero_fills() {
    let mut s = GlkStream::new(vec![1, 2, 3, 4, 5]);
    assert_eq!(&*getbuf(&mut s, 1, 3), &[2, 3, 4]);
    assert_eq!(getpos(&mut s), 4);
    assert_eq!(&*getbuf(&mut s, 3, 4), &[4, 5, 0, 0]);
    assert_eq!(getpos(&mut s), 5);
    assert_eq!(&*getbuf(&mut s, 9, 2), &[0, 0]);
}

#[test]
fn get_char_reports_end_of_stream() {
    let mut s = GlkStream::new(vec![200]);
    assert_eq!(s.get_char(), 200);
    assert_eq!(s.get_char(), -1);
    let mut buf = vec![9u8; 3];
    s.set_position(SeekMode::Start, 0);
    assert_eq!(s.get_buffer(&mut buf), 1);
    assert_eq!(buf, vec![200, 9, 9]);
}
