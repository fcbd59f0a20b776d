use exifgeo::cursor::{read_tag, read_u16, read_u32};
use exifgeo::gps::{coordinate_from_ifd, process_gps_section, quadrant_sign, GpsInfo};
use exifgeo::ifd::{ExifBody, IfdEntry};
use exifgeo::jpeg::{decode_exif, handle_app1, parse_image};
use exifgeo::rational::{coordinate_from_rationals, read_rationals, seconds_from_rationals, Rational};
use exifgeo::time::get_num;
use exifgeo::{BufReader, GeoError};

enum Value {
    Inline(u32),
    Data(Vec<u8>),
}

fn rationals(t: [(u32, u32); 3]) -> Vec<u8> {
    let mut v = Vec::new();
    for (n, d) in t.iter() {
        v.extend_from_slice(&n.to_le_bytes());
        v.extend_from_slice(&d.to_le_bytes());
    }
    v
}

fn push_entry(p: &mut Vec<u8>, tag: u16, typ: u16, count: u32, value: u32) {
    p.extend_from_slice(&tag.to_le_bytes());
    p.extend_from_slice(&typ.to_le_bytes());
    p.extend_from_slice(&count.to_le_bytes());
    p.extend_from_slice(&value.to_le_bytes());
}

/// A TIFF payload whose top-level directory points to a GPS directory at
/// offset 26 holding `entries`, their out-of-line values after it.
fn exif_payload(entries: &[(u16, Value)]) -> Vec<u8> {
    let mut p = vec![0x49, 0x49, 42, 0, 8, 0, 0, 0];
    p.extend_from_slice(&1u16.to_le_bytes());
    push_entry(&mut p, 0x8825, 4, 1, 26);
    p.extend_from_slice(&0u32.to_le_bytes());
    let n = entries.len();
    let data_at = 26 + 2 + 12 * n + 4;
    let mut data: Vec<u8> = Vec::new();
    p.extend_from_slice(&(n as u16).to_le_bytes());
    for (tag, v) in entries.iter() {
        match v {
            Value::Inline(x) => push_entry(&mut p, *tag, 2, 2, *x),
            Value::Data(d) => {
                push_entry(&mut p, *tag, 5, 3, (data_at + data.len()) as u32);
                data.extend_from_slice(d);
            }
        }
    }
    p.extend_from_slice(&0u32.to_le_bytes());
    p.extend_from_slice(&data);
    p
}

/// A JPEG stream: start of image, a JFIF segment, the EXIF segment, start of
/// scan.
fn jpeg(payload: &[u8]) -> Vec<u8> {
    let mut j = vec![0xff, 0xd8, 0xff, 0xe0, 0, 16];
    j.extend_from_slice(b"JFIF\0\x01\x01\0\0\x01\0\x01\0\0");
    j.extend_from_slice(&[0xff, 0xe1]);
    j.extend_from_slice(&((payload.len() + 8) as u16).to_be_bytes());
    j.extend_from_slice(b"Exif\0\0");
    j.extend_from_slice(payload);
    j.extend_from_slice(&[0xff, 0xda, 0, 2]);
    j
}

fn gps_entries(
    lat_q: char,
    lat: [(u32, u32); 3],
    lon_q: char,
    lon: [(u32, u32); 3],
    time: [(u32, u32); 3],
    date: &str,
) -> Vec<(u16, Value)> {
    let mut d = date.as_bytes().to_vec();
    d.push(0);
    vec![
        (1, Value::Inline(lat_q as u32)),
        (2, Value::Data(rationals(lat))),
        (3, Value::Inline(lon_q as u32)),
        (4, Value::Data(rationals(lon))),
        (7, Value::Data(rationals(time))),
        (0x1d, Value::Data(d)),
    ]
}

fn san_francisco() -> Vec<(u16, Value)> {
    gps_entries(
        'N',
        [(37, 1), (46, 1), (2964, 100)],
        'W',
        [(122, 1), (25, 1), (99, 10)],
        [(12, 1), (30, 1), (45, 1)],
        "2020:06:15",
    )
}

#[test]
fn parse_image_decodes_waypoint() {
    let r = parse_image(jpeg(&exif_payload(&san_francisco())));
    assert_eq!(r, Ok(GpsInfo { lat: 3777490, lon: -12241941, time: 64939062645 }));
}

#[test]
fn south_quadrant_negates_coordinate() {
    let e = gps_entries(
        'S',
        [(1, 1), (30, 1), (0, 1)],
        'E',
        [(2, 1), (0, 1), (0, 1)],
        [(0, 1), (0, 1), (0, 1)],
        "2020:01:01",
    );
    let w = parse_image(jpeg(&exif_payload(&e))).unwrap();
    assert_eq!(w.lat, -150000);
    assert_eq!(w.lon, 200000);
    assert_eq!(w.time, 2020 * 32140800);
}

#[test]
fn entries_in_any_order_give_the_same_waypoint() {
    let mut e = san_francisco();
    e.reverse();
    let r = parse_image(jpeg(&exif_payload(&e)));
    assert_eq!(r, Ok(GpsInfo { lat: 3777490, lon: -12241941, time: 64939062645 }));
}

#[test]
fn five_of_six_tags_is_incomplete() {
    let mut e = san_francisco();
    e.remove(4);
    let r = parse_image(jpeg(&exif_payload(&e)));
    assert_eq!(r, Err(GeoError::IncompleteGps));
    assert!(!r.unwrap_err().is_fatal());
}

#[test]
fn repeated_tag_counts_toward_six() {
    let mut e = san_francisco();
    e.remove(5);
    e.push((7, Value::Data(rationals([(1, 1), (0, 1), (0, 1)]))));
    let w = parse_image(jpeg(&exif_payload(&e))).unwrap();
    assert_eq!(w.time, 45045 + 3600);
}

#[test]
fn unknown_tags_are_ignored() {
    let mut e = san_francisco();
    e.push((0x10, Value::Inline(0x54)));
    let r = parse_image(jpeg(&exif_payload(&e)));
    assert_eq!(r, Ok(GpsInfo { lat: 3777490, lon: -12241941, time: 64939062645 }));
}

#[test]
fn not_a_jpeg() {
    assert_eq!(parse_image(vec![0x89, 0x50, 0x4e, 0x47]), Err(GeoError::NotJpeg));
    assert!(!GeoError::NotJpeg.is_fatal());
}

#[test]
fn scan_before_exif() {
    let j = vec![0xff, 0xd8, 0xff, 0xe0, 0, 4, 1, 2, 0xff, 0xda, 0, 2];
    assert_eq!(parse_image(j), Err(GeoError::NoExif));
}

#[test]
fn truncated_file_is_unexpected_end() {
    let mut j = jpeg(&exif_payload(&san_francisco()));
    j.truncate(40);
    let r = parse_image(j);
    assert_eq!(r, Err(GeoError::UnexpectedEnd));
    assert!(r.unwrap_err().is_fatal());
    assert_eq!(parse_image(vec![0xff]), Err(GeoError::UnexpectedEnd));
}

#[test]
fn segment_length_below_two() {
    let j = vec![0xff, 0xd8, 0xff, 0xe0, 0, 1, 0, 0];
    let r = parse_image(j);
    assert_eq!(r, Err(GeoError::BadSegmentLength));
    assert!(r.unwrap_err().is_fatal());
}

#[test]
fn app1_shorter_than_exif_identifier() {
    let j = vec![0xff, 0xd8, 0xff, 0xe1, 0, 5, 0x45, 0x78, 0x69, 0, 0, 0];
    assert_eq!(parse_image(j), Err(GeoError::BadSegmentLength));
}

#[test]
fn big_endian_tiff_header_is_refused() {
    let mut p = exif_payload(&san_francisco());
    p[0] = 0x4d;
    p[1] = 0x4d;
    assert_eq!(parse_image(jpeg(&p)), Err(GeoError::BadTiffHeader));
    let mut q = exif_payload(&san_francisco());
    q[4] = 10;
    assert_eq!(decode_exif(q), Err(GeoError::BadTiffHeader));
}

#[test]
fn no_gps_directory() {
    let mut p = exif_payload(&san_francisco());
    p[10] = 0x12;
    p[11] = 0x01;
    let r = parse_image(jpeg(&p));
    assert_eq!(r, Err(GeoError::NoGpsSection));
    assert!(!r.unwrap_err().is_fatal());
}

#[test]
fn unknown_quadrant_letter() {
    let mut e = san_francisco();
    e[0] = (1, Value::Inline('X' as u32));
    assert_eq!(parse_image(jpeg(&exif_payload(&e))), Err(GeoError::BadQuadrant));
    assert_eq!(quadrant_sign('E' as u32, 'E' as u32, 'W' as u32), Ok(false));
    assert_eq!(quadrant_sign('W' as u32, 'E' as u32, 'W' as u32), Ok(true));
    assert_eq!(quadrant_sign('N' as u32, 'E' as u32, 'W' as u32), Err(GeoError::BadQuadrant));
}

#[test]
fn non_digit_date() {
    let e = gps_entries(
        'N',
        [(1, 1), (0, 1), (0, 1)],
        'E',
        [(1, 1), (0, 1), (0, 1)],
        [(0, 1), (0, 1), (0, 1)],
        "20a0:01:01",
    );
    assert_eq!(parse_image(jpeg(&exif_payload(&e))), Err(GeoError::BadDate));
}

#[test]
fn zero_month_date() {
    let e = gps_entries(
        'N',
        [(1, 1), (0, 1), (0, 1)],
        'E',
        [(1, 1), (0, 1), (0, 1)],
        [(0, 1), (0, 1), (0, 1)],
        "2020:00:01",
    );
    assert_eq!(parse_image(jpeg(&exif_payload(&e))), Err(GeoError::BadDate));
}

#[test]
fn zero_denominator_is_not_fatal() {
    let mut e = san_francisco();
    e[1] = (2, Value::Data(rationals([(37, 0), (46, 1), (0, 1)])));
    let r = parse_image(jpeg(&exif_payload(&e)));
    assert_eq!(r, Err(GeoError::ZeroDenominator));
    assert!(!r.unwrap_err().is_fatal());
}

#[test]
fn rationals_are_read_exactly() {
    let mut data = vec![0u8, 0, 0];
    data.extend(rationals([(7, 3), (0xffff_ffff, 1), (5, 0)]));
    let mut buf = BufReader::new(data);
    let t = read_rationals(&mut buf, 3).unwrap();
    assert_eq!(
        t,
        [
            Rational { num: 7, den: 3 },
            Rational { num: 0xffff_ffff, den: 1 },
            Rational { num: 5, den: 0 },
        ]
    );
    assert_eq!(buf.position(), 0);
    assert_eq!(read_rationals(&mut buf, 4), Err(GeoError::UnexpectedEnd));
    assert_eq!(buf.position(), 0);
}

#[test]
fn seconds_round_down() {
    let t = [
        Rational { num: 12, den: 1 },
        Rational { num: 30, den: 1 },
        Rational { num: 4550, den: 100 },
    ];
    assert_eq!(seconds_from_rationals(&t), Ok(45045));
    let z = [
        Rational { num: 12, den: 1 },
        Rational { num: 30, den: 0 },
        Rational { num: 0, den: 1 },
    ];
    assert_eq!(seconds_from_rationals(&z), Err(GeoError::ZeroDenominator));
}

#[test]
fn coordinate_units_of_degrees_minutes_seconds() {
    let t = [
        Rational { num: 1, den: 1 },
        Rational { num: 30, den: 1 },
        Rational { num: 0, den: 1 },
    ];
    assert_eq!(coordinate_from_rationals(&t), Ok(150000));
    let u = [
        Rational { num: 122, den: 1 },
        Rational { num: 25, den: 1 },
        Rational { num: 99, den: 10 },
    ];
    assert_eq!(coordinate_from_rationals(&u), Ok(12241941));
    let max = [
        Rational { num: 0xffff_ffff, den: 1 },
        Rational { num: 0xffff_ffff, den: 1 },
        Rational { num: 0xffff_ffff, den: 1 },
    ];
    assert_eq!(coordinate_from_rationals(&max), Ok(436774312972083));
}

#[test]
fn coordinate_from_ifd_keeps_position() {
    let mut data = vec![9u8; 5];
    data.extend(rationals([(45, 1), (0, 1), (36, 1)]));
    let mut buf = BufReader::new(data);
    buf.set_cursor(2).unwrap();
    assert_eq!(coordinate_from_ifd(&mut buf, 5), Ok(4501000));
    assert_eq!(buf.position(), 2);
}

#[test]
fn get_num_is_strict() {
    assert_eq!(get_num(b"2020"), Ok(2020));
    assert_eq!(get_num(b"07"), Ok(7));
    assert_eq!(get_num(b"+1"), Err(GeoError::BadDate));
    assert_eq!(get_num(b" 1"), Err(GeoError::BadDate));
    assert_eq!(get_num(b""), Err(GeoError::BadDate));
    assert_eq!(get_num(b"18446744073709551615"[1..].as_ref()), Ok(8446744073709551615));
}

#[test]
fn records_decode_field_by_field() {
    let mut data = vec![0x49, 0x49, 0x2a, 0x00, 0x08, 0, 0, 0];
    data.extend_from_slice(&[0x25, 0x88, 4, 0, 1, 0, 0, 0, 0x1a, 0, 0, 0]);
    let mut buf = BufReader::new(data);
    let eb = ExifBody::read(&mut buf).unwrap();
    assert_eq!((eb.tiff(), eb.size(), eb.offset()), (0x4949, 42, 8));
    assert!(eb.is_valid());
    let e = IfdEntry::read(&mut buf).unwrap();
    assert_eq!((e.tag(), e.typ_e(), e.count(), e.offset()), (0x8825, 4, 1, 26));
    assert_eq!(IfdEntry::read(&mut buf), Err(GeoError::UnexpectedEnd));
    let odd = ExifBody { tiff: 0x4949, size: 42, offset: 16 };
    assert!(!odd.is_valid());
}

#[test]
fn gps_section_from_cursor() {
    let p = exif_payload(&san_francisco());
    let mut buf = BufReader::new(p);
    buf.set_cursor(26).unwrap();
    assert_eq!(
        process_gps_section(&mut buf),
        Ok(GpsInfo { lat: 3777490, lon: -12241941, time: 64939062645 })
    );
}

#[test]
fn app1_segment_at_cursor() {
    let payload = exif_payload(&san_francisco());
    let mut seg = b"Exif\0\0".to_vec();
    seg.extend_from_slice(&payload);
    let len = seg.len() as u16;
    let mut buf = BufReader::new(seg);
    let w = handle_app1(&mut buf, len).unwrap();
    assert_eq!(w.lat, 3777490);
    let mut short = BufReader::new(vec![0u8; 10]);
    assert_eq!(handle_app1(&mut short, 20), Err(GeoError::UnexpectedEnd));
}

#[test]
fn cursor_saves_and_restores() {
    let mut buf = BufReader::new(vec![10, 11, 12, 13, 14]);
    assert_eq!(buf.len(), 5);
    buf.set_cursor(1).unwrap();
    buf.save_cursor();
    assert_eq!(buf.set_cursor(4), Ok(()));
    assert_eq!(buf.read(1), Ok(vec![14]));
    assert_eq!(buf.restore_cursor(), Ok(()));
    assert_eq!(buf.position(), 1);
    assert_eq!(buf.read(2), Ok(vec![11, 12]));
    assert_eq!(buf.restore_cursor(), Err(GeoError::EmptyCursorStack));
    assert!(GeoError::EmptyCursorStack.is_fatal());
    assert_eq!(buf.position(), 3);
}

#[test]
fn set_cursor_past_end_fails() {
    let mut buf = BufReader::new(vec![1, 2, 3]);
    assert_eq!(buf.set_cursor(3), Err(GeoError::UnexpectedEnd));
    assert_eq!(buf.position(), 0);
    assert_eq!(buf.set_cursor(2), Ok(()));
    assert_eq!(buf.read(2), Err(GeoError::UnexpectedEnd));
    assert_eq!(buf.position(), 2);
}

#[test]
fn read_at_leaves_position() {
    let mut buf = BufReader::new(vec![1, 2, 3, 4, 5, 6]);
    buf.set_cursor(1).unwrap();
    assert_eq!(buf.read_at(3, 2), Ok(vec![4, 5]));
    assert_eq!(buf.position(), 1);
    assert_eq!(buf.read_at(5, 2), Err(GeoError::UnexpectedEnd));
    assert_eq!(buf.read_at(6, 0), Err(GeoError::UnexpectedEnd));
    assert_eq!(buf.position(), 1);
    assert_eq!(buf.restore_cursor(), Err(GeoError::EmptyCursorStack));
}

#[test]
fn byte_orders() {
    let mut buf = BufReader::new(vec![0xff, 0xd8, 0xff, 0xd8, 1, 2, 3, 4]);
    assert_eq!(read_tag(&mut buf), Ok(0xffd8));
    assert_eq!(read_u16(&mut buf), Ok(0xd8ff));
    assert_eq!(read_u32(&mut buf), Ok(0x04030201));
    assert_eq!(read_u16(&mut buf), Err(GeoError::UnexpectedEnd));
}

#[test]
fn init_replaces_buffer() {
    let mut buf = BufReader::new(vec![1, 2, 3]);
    buf.set_cursor(2).unwrap();
    buf.save_cursor();
    buf.init(vec![7, 8]);
    assert_eq!(buf.position(), 0);
    assert_eq!(buf.len(), 2);
    assert_eq!(buf.restore_cursor(), Err(GeoError::EmptyCursorStack));
    assert_eq!(buf.read(2), Ok(vec![7, 8]));
}

#[test]
fn dump_shows_hex_bytes() {
    let mut buf = BufReader::new(vec![0x00, 0xab, 0x0f, 0x10]);
    buf.set_cursor(1).unwrap();
    assert_eq!(buf.dump(3), b" ab 0f 10".to_vec());
    assert_eq!(buf.dump(0), Vec::<u8>::new());
}

#[test]
fn get_num_accepts_any_length_that_fits() {
    assert_eq!(get_num(b"18446744073709551615"), Ok(u64::MAX));
    assert_eq!(get_num(b"000000000000000000000042"), Ok(42));
    assert_eq!(get_num(b"18446744073709551616"), Err(GeoError::BadDate));
    assert_eq!(get_num(b"99999999999999999999"), Err(GeoError::BadDate));
}

#[test]
fn failed_reads_keep_position() {
    let mut buf = BufReader::new(vec![1, 2, 3, 4, 5, 6, 7, 8, 9, 10, 11]);
    buf.set_cursor(9).unwrap();
    assert_eq!(read_u32(&mut buf), Err(GeoError::UnexpectedEnd));
    assert_eq!(buf.position(), 9);
    buf.set_cursor(10).unwrap();
    assert_eq!(read_u16(&mut buf), Err(GeoError::UnexpectedEnd));
    assert_eq!(read_tag(&mut buf), Err(GeoError::UnexpectedEnd));
    assert_eq!(buf.position(), 10);
    buf.set_cursor(1).unwrap();
    assert_eq!(IfdEntry::read(&mut buf), Err(GeoError::UnexpectedEnd));
    assert_eq!(buf.position(), 1);
    buf.set_cursor(4).unwrap();
    assert_eq!(ExifBody::read(&mut buf), Err(GeoError::UnexpectedEnd));
    assert_eq!(buf.position(), 4);
}
