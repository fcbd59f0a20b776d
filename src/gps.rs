use vstd::prelude::*;
use vstd::slice::slice_subrange;
use crate::cursor::{BufReader, le_u16, read_u16};
use crate::error::GeoError;
use crate::ifd::{IfdEntry, ifd_entry_at, IFD_ENTRY_SIZE};
use crate::rational::{
    Rational,
    common_den,
    sexagesimal_num,
    coord_units_of,
    coordinate_from_rationals,
    dens_nonzero,
    max_coord_units,
    max_sexagesimal,
    read_rationals,
    seconds_from_rationals,
    seconds_of,
    triple_at,
    TRIPLE_SIZE,
};
use crate::time::{
    calendar_of,
    lemma_time_round_trip,
    CalendarTime,
    composite_time,
    decimal_value,
    get_num,
    is_digit,
    lemma_decimal_bound,
    pow10,
    SECONDS_PER_DAY,
    SECONDS_PER_MONTH,
    SECONDS_PER_YEAR,
};

verus! {

/// GPS tag of the latitude quadrant (`N` or `S`).
pub const LAT_Q: u16 = 1;

/// GPS tag of the latitude value.
pub const LAT_V: u16 = 2;

/// GPS tag of the longitude quadrant (`E` or `W`).
pub const LONG_Q: u16 = 3;

/// GPS tag of the longitude value.
pub const LONG_V: u16 = 4;

/// GPS tag of the time of day.
pub const TIMESTAMP: u16 = 7;

/// GPS tag of the date.
pub const DATESTAMP: u16 = 0x1d;

/// Number of recognised entries that a complete GPS directory holds.
pub const NUM_ESSENTIAL_ENTRIES: usize = 6;

/// Size in bytes of a `YYYY:MM:DD` date.
pub const DATE_SIZE: usize = 10;

/// Character code of `N`, the northern latitude quadrant.
pub const NORTH: u32 = 0x4e;

/// Character code of `S`, the southern latitude quadrant.
pub const SOUTH: u32 = 0x53;

/// Character code of `E`, the eastern longitude quadrant.
pub const EAST: u32 = 0x45;

/// Character code of `W`, the western longitude quadrant.
pub const WEST: u32 = 0x57;

/// A waypoint: latitude and longitude in steps of 1e-5 degree, negative to
/// the south and to the west, and a composite time.
#[derive(Debug, Clone, Copy, PartialEq, Eq, Structural)]
pub struct GpsInfo {
    pub lat: i64,
    pub lon: i64,
    pub time: u64,
}

/// What the decoding of a GPS directory has gathered after some entries:
/// unsigned coordinates, the accumulated time, the quadrant signs and the
/// number of recognised entries.
pub struct GpsScan {
    pub lat: int,
    pub lon: int,
    pub time: int,
    pub lat_neg: bool,
    pub lon_neg: bool,
    pub essentials: nat,
}

/// All bytes are ASCII decimal digits.
pub open spec fn all_digits(s: Seq<u8>) -> bool {
    forall|i: int| 0 <= i < s.len() ==> is_digit(#[trigger] s[i])
}

/// Whether a quadrant value selects the negative direction.
pub open spec fn quadrant_at(value: u32, positive: u32, negative: u32) -> Result<bool, GeoError> {
    if value == positive {
        Ok(false)
    } else if value == negative {
        Ok(true)
    } else {
        Err(GeoError::BadQuadrant)
    }
}

/// The coordinate, in steps of 1e-5 degree, of the triple stored at `at`.
pub open spec fn coordinate_at(s: Seq<u8>, at: int) -> Result<int, GeoError> {
    if !(at < s.len() && at + TRIPLE_SIZE <= s.len()) {
        Err(GeoError::UnexpectedEnd)
    } else if !dens_nonzero(triple_at(s, at)) {
        Err(GeoError::ZeroDenominator)
    } else {
        Ok(coord_units_of(triple_at(s, at)))
    }
}

/// The seconds of the time of day stored at `at`.
pub open spec fn timestamp_at(s: Seq<u8>, at: int) -> Result<int, GeoError> {
    if !(at < s.len() && at + TRIPLE_SIZE <= s.len()) {
        Err(GeoError::UnexpectedEnd)
    } else if !dens_nonzero(triple_at(s, at)) {
        Err(GeoError::ZeroDenominator)
    } else {
        Ok(seconds_of(triple_at(s, at)))
    }
}

/// The composite time of the `YYYY:MM:DD` date stored at `at`. The
/// separators are not looked at; month and day start at 1.
pub open spec fn datestamp_at(s: Seq<u8>, at: int) -> Result<int, GeoError> {
    if !(at < s.len() && at + DATE_SIZE <= s.len()) {
        Err(GeoError::UnexpectedEnd)
    } else {
        let y = s.subrange(at, at + 4);
        let m = s.subrange(at + 5, at + 7);
        let d = s.subrange(at + 8, at + 10);
        if !(all_digits(y) && all_digits(m) && all_digits(d)) || decimal_value(m) == 0
            || decimal_value(d) == 0 {
            Err(GeoError::BadDate)
        } else {
            Ok(composite_time(decimal_value(y), decimal_value(m), decimal_value(d), 0, 0, 0))
        }
    }
}

/// The effect of one GPS directory entry. Each recognised tag counts once
/// more toward the six essential entries, also when it repeats; values
/// replace earlier ones, except the time, which adds up.
pub open spec fn gps_step(s: Seq<u8>, acc: GpsScan, e: IfdEntry) -> Result<GpsScan, GeoError> {
    let at = e.offset as int;
    let counted = acc.essentials + 1;
    if e.tag == LAT_Q {
        match quadrant_at(e.offset, NORTH, SOUTH) {
            Ok(n) => Ok(GpsScan { lat_neg: n, essentials: counted, ..acc }),
            Err(x) => Err(x),
        }
    } else if e.tag == LONG_Q {
        match quadrant_at(e.offset, EAST, WEST) {
            Ok(n) => Ok(GpsScan { lon_neg: n, essentials: counted, ..acc }),
            Err(x) => Err(x),
        }
    } else if e.tag == LAT_V {
        match coordinate_at(s, at) {
            Ok(v) => Ok(GpsScan { lat: v, essentials: counted, ..acc }),
            Err(x) => Err(x),
        }
    } else if e.tag == LONG_V {
        match coordinate_at(s, at) {
            Ok(v) => Ok(GpsScan { lon: v, essentials: counted, ..acc }),
            Err(x) => Err(x),
        }
    } else if e.tag == TIMESTAMP {
        match timestamp_at(s, at) {
            Ok(v) => Ok(GpsScan { time: acc.time + v, essentials: counted, ..acc }),
            Err(x) => Err(x),
        }
    } else if e.tag == DATESTAMP {
        match datestamp_at(s, at) {
            Ok(v) => Ok(GpsScan { time: acc.time + v, essentials: counted, ..acc }),
            Err(x) => Err(x),
        }
    } else {
        Ok(acc)
    }
}

/// Nothing gathered yet.
pub open spec fn gps_scan_start() -> GpsScan {
    GpsScan { lat: 0, lon: 0, time: 0, lat_neg: false, lon_neg: false, essentials: 0 }
}

/// The outcome of the first `n` entries of the directory whose entries
/// start at `base`: the first failure, or what they gathered.
pub open spec fn gps_scan(s: Seq<u8>, base: int, n: nat) -> Result<GpsScan, GeoError>
    decreases n,
{
    if n == 0 {
        Ok(gps_scan_start())
    } else {
        match gps_scan(s, base, (n - 1) as nat) {
            Err(x) => Err(x),
            Ok(acc) => if base + IFD_ENTRY_SIZE * n > s.len() {
                Err(GeoError::UnexpectedEnd)
            } else {
                gps_step(s, acc, ifd_entry_at(s, base + IFD_ENTRY_SIZE * (n - 1)))
            },
        }
    }
}

/// `v` with the sign that the quadrant selects.
pub open spec fn signed(v: int, negative: bool) -> int {
    if negative {
        -v
    } else {
        v
    }
}

/// The waypoint of a complete scan.
pub open spec fn waypoint_of(acc: GpsScan) -> GpsInfo {
    GpsInfo {
        lat: signed(acc.lat, acc.lat_neg) as i64,
        lon: signed(acc.lon, acc.lon_neg) as i64,
        time: acc.time as u64,
    }
}

/// The waypoint that the GPS directory stored at `at` describes: a 16-bit
/// entry count, then the entries. It fails unless exactly six entries are
/// recognised.
pub open spec fn gps_section_at(s: Seq<u8>, at: int) -> Result<GpsInfo, GeoError> {
    if at + 2 > s.len() {
        Err(GeoError::UnexpectedEnd)
    } else {
        match gps_scan(s, at + 2, le_u16(s, at) as nat) {
            Err(x) => Err(x),
            Ok(acc) => if acc.essentials == NUM_ESSENTIAL_ENTRIES {
                Ok(waypoint_of(acc))
            } else {
                Err(GeoError::IncompleteGps)
            },
        }
    }
}

/// Largest composite time of a date with four-digit year and two-digit
/// month and day.
pub open spec fn max_date_seconds() -> int {
    composite_time(9999, 99, 99, 0, 0, 0)
}

proof fn lemma_scan_stays_failed(s: Seq<u8>, base: int, n: nat, m: nat)
    requires
        n <= m,
        gps_scan(s, base, n) is Err,
    ensures
        gps_scan(s, base, m) == gps_scan(s, base, n),
    decreases m,
{
    if m > n {
        lemma_scan_stays_failed(s, base, n, (m - 1) as nat);
    }
}

proof fn lemma_date_bound(s: Seq<u8>, at: int)
    requires
        0 <= at,
        datestamp_at(s, at) is Ok,
    ensures
        0 <= datestamp_at(s, at)->Ok_0 <= max_date_seconds(),
{
    let y = s.subrange(at, at + 4);
    let m = s.subrange(at + 5, at + 7);
    let d = s.subrange(at + 8, at + 10);
    lemma_decimal_bound(y);
    lemma_decimal_bound(m);
    lemma_decimal_bound(d);
    reveal_with_fuel(pow10, 5);
    let (yv, mv, dv) = (decimal_value(y), decimal_value(m), decimal_value(d));
    assert(0 <= yv < 10000 && 1 <= mv < 100 && 1 <= dv < 100);
    assert(composite_time(yv, mv, dv, 0, 0, 0) == yv * 32140800 + (mv - 1) * 2678400 + (dv - 1)
        * 86400);
}

/// The time that a date stamp and a whole-second time stamp add to a
/// waypoint decodes back to that date and time of day.
pub proof fn lemma_stamps_round_trip(
    year: nat,
    month: nat,
    day: nat,
    hour: u32,
    minute: u32,
    second: u32,
)
    requires
        year <= 9999,
        1 <= month <= 12,
        1 <= day <= 31,
        hour < 24,
        minute < 60,
        second < 60,
    ensures
        calendar_of(
            composite_time(year as int, month as int, day as int, 0, 0, 0) + seconds_of(
                seq![
                    Rational { num: hour, den: 1 },
                    Rational { num: minute, den: 1 },
                    Rational { num: second, den: 1 },
                ],
            ),
        ) == (CalendarTime {
            year: year as u64,
            month: month as u64,
            day: day as u64,
            hour: hour as u64,
            minute: minute as u64,
            second: second as u64,
        }),
{
    let t = seq![
        Rational { num: hour, den: 1 },
        Rational { num: minute, den: 1 },
        Rational { num: second, den: 1 },
    ];
    assert(t[0] == Rational { num: hour, den: 1 } && t[1] == Rational { num: minute, den: 1 }
        && t[2] == Rational { num: second, den: 1 });
    let (d0, d1, d2) = (t[0].den as int, t[1].den as int, t[2].den as int);
    let (n0, n1, n2) = (t[0].num as int, t[1].num as int, t[2].num as int);
    assert(d0 * d1 * d2 == 1 && 3600 * (n0 * d1 * d2) + 60 * (n1 * d0 * d2) + n2 * d0 * d1 == 3600
        * n0 + 60 * n1 + n2) by (nonlinear_arith)
        requires
            d0 == 1,
            d1 == 1,
            d2 == 1,
    ;
    assert(common_den(t) == 1);
    assert(sexagesimal_num(t) == hour * 3600 + minute * 60 + second);
    vstd::arithmetic::div_mod::lemma_fundamental_div_mod_converse(
        sexagesimal_num(t),
        1,
        sexagesimal_num(t),
        0,
    );
    assert(seconds_of(t) == hour * 3600 + minute * 60 + second);
    lemma_time_round_trip(year, month, day, hour as nat, minute as nat, second as nat);
}

impl GpsInfo {
    /// A waypoint at latitude 0, longitude 0 and time 0.
    pub fn new() -> (r: Self)
        ensures
            r == (GpsInfo { lat: 0, lon: 0, time: 0 }),
    {
        GpsInfo { lat: 0, lon: 0, time: 0 }
    }

    /// Adds the time of day stored at `offset` (hours, minutes, seconds) to
    /// the waypoint's time, in whole seconds rounded down.
    pub fn process_timestamp(&mut self, buf: &mut BufReader, offset: u32) -> (r: Result<
        (),
        GeoError,
    >)
        requires
            old(buf).wf(),
            old(self).time + max_sexagesimal() <= u64::MAX,
        ensures
            final(buf).wf(),
            final(buf).data() == old(buf).data(),
            final(buf).pos() == old(buf).pos(),
            final(buf).saved() == old(buf).saved(),
            r is Ok <==> timestamp_at(old(buf).data(), offset as int) is Ok,
            r matches Err(x) ==> timestamp_at(old(buf).data(), offset as int) == Err::<int, GeoError>(x)
                && *final(self) == *old(self),
            r is Ok ==> *final(self) == (GpsInfo {
                time: (old(self).time + timestamp_at(old(buf).data(), offset as int)->Ok_0) as u64,
                ..*old(self)
            }),
            r is Ok ==> 0 <= timestamp_at(old(buf).data(), offset as int)->Ok_0 <= max_sexagesimal(),
    {
        let t = read_rationals(buf, offset)?;
        let secs = seconds_from_rationals(&t)?;
        self.time = self.time + secs;
        Ok(())
    }

    /// Adds the composite time of the `YYYY:MM:DD` date stored at `offset`
    /// to the waypoint's time.
    pub fn process_datestamp(&mut self, buf: &mut BufReader, offset: u32) -> (r: Result<
        (),
        GeoError,
    >)
        requires
            old(buf).wf(),
            old(self).time + max_date_seconds() <= u64::MAX,
        ensures
            final(buf).wf(),
            final(buf).data() == old(buf).data(),
            final(buf).pos() == old(buf).pos(),
            final(buf).saved() == old(buf).saved(),
            r is Ok <==> datestamp_at(old(buf).data(), offset as int) is Ok,
            r matches Err(x) ==> datestamp_at(old(buf).data(), offset as int) == Err::<int, GeoError>(x)
                && *final(self) == *old(self),
            r is Ok ==> *final(self) == (GpsInfo {
                time: (old(self).time + datestamp_at(old(buf).data(), offset as int)->Ok_0) as u64,
                ..*old(self)
            }),
            r is Ok ==> 0 <= datestamp_at(old(buf).data(), offset as int)->Ok_0 <= max_date_seconds(),
    {
        let date = buf.read_at(offset as usize, DATE_SIZE)?;
        let ghost s = buf.data();
        let ghost at = offset as int;
        assert(date@ == s.subrange(at, at + 10));
        let ys = slice_subrange(date.as_slice(), 0, 4);
        let ms = slice_subrange(date.as_slice(), 5, 7);
        let ds = slice_subrange(date.as_slice(), 8, 10);
        assert(ys@ =~= s.subrange(at, at + 4));
        assert(ms@ =~= s.subrange(at + 5, at + 7));
        assert(ds@ =~= s.subrange(at + 8, at + 10));
        proof {
            reveal_with_fuel(pow10, 5);
            if all_digits(ys@) {
                lemma_decimal_bound(ys@);
            }
            if all_digits(ms@) {
                lemma_decimal_bound(ms@);
            }
            if all_digits(ds@) {
                lemma_decimal_bound(ds@);
            }
        }
        let year = get_num(ys)?;
        let month = get_num(ms)?;
        let day = get_num(ds)?;
        if month == 0 || day == 0 {
            return Err(GeoError::BadDate);
        }
        proof {
            lemma_date_bound(s, at);
        }
        self.time = self.time + year * SECONDS_PER_YEAR + (month - 1) * SECONDS_PER_MONTH + (day - 1)
            * SECONDS_PER_DAY;
        Ok(())
    }
}

/// The coordinate stored at `offset`, in steps of 1e-5 degree, rounded down.
pub fn coordinate_from_ifd(buf: &mut BufReader, offset: u32) -> (r: Result<u64, GeoError>)
    requires
        old(buf).wf(),
    ensures
        final(buf).wf(),
        final(buf).data() == old(buf).data(),
        final(buf).pos() == old(buf).pos(),
        final(buf).saved() == old(buf).saved(),
        r is Ok <==> coordinate_at(old(buf).data(), offset as int) is Ok,
        r matches Ok(v) ==> coordinate_at(old(buf).data(), offset as int) == Ok::<int, GeoError>(
            v as int,
        ) && v <= max_coord_units(),
        r matches Err(x) ==> coordinate_at(old(buf).data(), offset as int) == Err::<int, GeoError>(x),
{
    let t = read_rationals(buf, offset)?;
    coordinate_from_rationals(&t)
}

/// Whether a quadrant value selects the negative direction; fails on a value
/// that is neither `positive` nor `negative`.
pub fn quadrant_sign(value: u32, positive: u32, negative: u32) -> (r: Result<bool, GeoError>)
    ensures
        r == quadrant_at(value, positive, negative),
{
    if value == positive {
        Ok(false)
    } else if value == negative {
        Ok(true)
    } else {
        Err(GeoError::BadQuadrant)
    }
}

/// The scan state that the decoding loop holds in `w`, the quadrant flags
/// and the count of recognised entries.
pub open spec fn scan_of(w: GpsInfo, lat_neg: bool, lon_neg: bool, essentials: usize) -> GpsScan {
    GpsScan {
        lat: w.lat as int,
        lon: w.lon as int,
        time: w.time as int,
        lat_neg,
        lon_neg,
        essentials: essentials as nat,
    }
}

/// Decodes the GPS directory at the read position into a waypoint, following
/// value offsets without losing the place in the directory.
pub fn process_gps_section(buffer: &mut BufReader) -> (r: Result<GpsInfo, GeoError>)
    requires
        old(buffer).wf(),
    ensures
        final(buffer).wf(),
        final(buffer).data() == old(buffer).data(),
        final(buffer).saved() == old(buffer).saved(),
        r == gps_section_at(old(buffer).data(), old(buffer).pos()),
{
    let ghost s = buffer.data();
    let num_entries = read_u16(buffer)?;
    let ghost base = buffer.pos();
    let mut i: u16 = 0;
    let mut essentials: usize = 0;
    let mut waypoint: GpsInfo = GpsInfo::new();
    let mut lat_neg: bool = false;
    let mut lon_neg: bool = false;
    while i < num_entries
        invariant
            buffer.wf(),
            buffer.data() == s,
            s == old(buffer).data(),
            buffer.saved() == old(buffer).saved(),
            base == old(buffer).pos() + 2,
            num_entries == le_u16(s, old(buffer).pos()),
            i <= num_entries,
            buffer.pos() == base + IFD_ENTRY_SIZE * i,
            essentials <= i,
            0 <= waypoint.lat <= max_coord_units(),
            0 <= waypoint.lon <= max_coord_units(),
            waypoint.time <= i * max_sexagesimal(),
            gps_scan(s, base, i as nat) == Ok::<GpsScan, GeoError>(
                scan_of(waypoint, lat_neg, lon_neg, essentials),
            ),
        decreases num_entries - i,
    {
        let ghost before = scan_of(waypoint, lat_neg, lon_neg, essentials);
        assert(waypoint.time + max_sexagesimal() <= u64::MAX) by (nonlinear_arith)
            requires
                waypoint.time <= i * max_sexagesimal(),
                i < 65536,
                max_sexagesimal() == 3661 * 0xffff_ffffint,
        ;
        let read = IfdEntry::read(buffer);
        let entry = match read {
            Ok(e) => e,
            Err(x) => {
                proof {
                    lemma_scan_stays_failed(s, base, (i + 1) as nat, num_entries as nat);
                }
                return Err(x);
            },
        };
        assert(entry == ifd_entry_at(s, base + IFD_ENTRY_SIZE * ((i + 1) as nat - 1)));
        let step: Result<(), GeoError> = if entry.tag == LAT_Q {
            match quadrant_sign(entry.offset, NORTH, SOUTH) {
                Ok(n) => {
                    lat_neg = n;
                    Ok(())
                },
                Err(x) => Err(x),
            }
        } else if entry.tag == LONG_Q {
            match quadrant_sign(entry.offset, EAST, WEST) {
                Ok(n) => {
                    lon_neg = n;
                    Ok(())
                },
                Err(x) => Err(x),
            }
        } else if entry.tag == LAT_V {
            match coordinate_from_ifd(buffer, entry.offset) {
                Ok(v) => {
                    waypoint.lat = v as i64;
                    Ok(())
                },
                Err(x) => Err(x),
            }
        } else if entry.tag == LONG_V {
            match coordinate_from_ifd(buffer, entry.offset) {
                Ok(v) => {
                    waypoint.lon = v as i64;
                    Ok(())
                },
                Err(x) => Err(x),
            }
        } else if entry.tag == TIMESTAMP {
            waypoint.process_timestamp(buffer, entry.offset)
        } else if entry.tag == DATESTAMP {
            waypoint.process_datestamp(buffer, entry.offset)
        } else {
            Ok(())
        };
        if let Err(x) = step {
            proof {
                lemma_scan_stays_failed(s, base, (i + 1) as nat, num_entries as nat);
            }
            return Err(x);
        }
        if entry.tag == LAT_Q || entry.tag == LONG_Q || entry.tag == LAT_V || entry.tag == LONG_V
            || entry.tag == TIMESTAMP || entry.tag == DATESTAMP {
            essentials += 1;
        }
        proof {
            assert(max_date_seconds() <= max_sexagesimal());
            assert(waypoint.time <= before.time + max_sexagesimal());
            assert(i * max_sexagesimal() + max_sexagesimal() == (i + 1) * max_sexagesimal())
                by (nonlinear_arith);
        }
        i += 1;
    }
    if essentials == NUM_ESSENTIAL_ENTRIES {
        if lat_neg {
            waypoint.lat = -waypoint.lat;
        }
        if lon_neg {
            waypoint.lon = -waypoint.lon;
        }
        Ok(waypoint)
    } else {
        Err(GeoError::IncompleteGps)
    }
}

} // verus!
