use vstd::prelude::*;
use vstd::string::StringExecFns;
use crate::gps::GpsInfo;
use crate::time::{calendar_of, time_fields};

verus! {

/// The text of a decimal digit.
pub open spec fn digit_text(d: int) -> Seq<char> {
    if d == 0 {
        "0"@
    } else if d == 1 {
        "1"@
    } else if d == 2 {
        "2"@
    } else if d == 3 {
        "3"@
    } else if d == 4 {
        "4"@
    } else if d == 5 {
        "5"@
    } else if d == 6 {
        "6"@
    } else if d == 7 {
        "7"@
    } else if d == 8 {
        "8"@
    } else {
        "9"@
    }
}

/// `n` in decimal, without leading zeros.
pub open spec fn decimal(n: nat) -> Seq<char>
    decreases n,
{
    if n < 10 {
        digit_text(n as int)
    } else {
        decimal(n / 10) + digit_text((n % 10) as int)
    }
}

/// Number of decimal digits of `n`.
pub open spec fn digit_count(n: nat) -> nat
    decreases n,
{
    if n < 10 {
        1
    } else {
        digit_count(n / 10) + 1
    }
}

/// `k` zero digits.
pub open spec fn zeros(k: nat) -> Seq<char>
    decreases k,
{
    if k == 0 {
        Seq::empty()
    } else {
        zeros((k - 1) as nat) + "0"@
    }
}

/// `n` in decimal, padded with leading zeros to at least `width` digits.
pub open spec fn padded(n: nat, width: nat) -> Seq<char> {
    if digit_count(n) < width {
        zeros((width - digit_count(n)) as nat) + decimal(n)
    } else {
        decimal(n)
    }
}

/// A coordinate given in steps of 1e-5 degree, as decimal degrees with five
/// decimals.
pub open spec fn coord_text(v: int) -> Seq<char> {
    let a = if v < 0 {
        -v
    } else {
        v
    };
    let sign = if v < 0 {
        "-"@
    } else {
        Seq::<char>::empty()
    };
    sign + decimal((a / 100000) as nat) + "."@ + padded((a % 100000) as nat, 5)
}

/// The `<time>` element of a composite time, as `Y-MM-DDTHH:MM:SSZ`.
pub open spec fn time_text(t: u64) -> Seq<char> {
    let c = calendar_of(t as int);
    "<time>"@ + decimal(c.year as nat) + "-"@ + padded(c.month as nat, 2) + "-"@ + padded(
        c.day as nat,
        2,
    ) + "T"@ + padded(c.hour as nat, 2) + ":"@ + padded(c.minute as nat, 2) + ":"@ + padded(
        c.second as nat,
        2,
    ) + "Z</time>"@
}

/// One `<trkpt>` line.
pub open spec fn trkpt_text(w: GpsInfo) -> Seq<char> {
    "<trkpt lat=\""@ + coord_text(w.lat as int) + "\" lon=\""@ + coord_text(w.lon as int)
        + "\"> "@ + time_text(w.time) + "</trkpt>\n"@
}

/// The `<trkpt>` lines of a track, in order.
pub open spec fn trkpts_text(track: Seq<GpsInfo>) -> Seq<char>
    decreases track.len(),
{
    if track.len() == 0 {
        Seq::empty()
    } else {
        trkpts_text(track.drop_last()) + trkpt_text(track.last())
    }
}

/// The GPX 1.1 document of a track named `name`.
pub open spec fn gpx_text(name: Seq<char>, track: Seq<GpsInfo>) -> Seq<char> {
    "<?xml version=\"1.0\" encoding=\"UTF-8\" standalone=\"yes\" ?>\n"@
        + "<gpx version=\"1.1\" creator=\"git@github.com:vbendeb/exifgeo.git\">\n"@ + "<name>"@
        + name + "</name>\n"@ + "<trk>\n"@ + "<name>"@ + name + "</name><number>1</number>\n"@
        + "<trkseg>\n"@ + trkpts_text(track) + "</trkseg>\n"@ + "</trk>\n"@ + "</gpx>\n"@
}

fn digit_str(d: u64) -> (r: &'static str)
    requires
        d < 10,
    ensures
        r@ == digit_text(d as int),
{
    if d == 0 {
        "0"
    } else if d == 1 {
        "1"
    } else if d == 2 {
        "2"
    } else if d == 3 {
        "3"
    } else if d == 4 {
        "4"
    } else if d == 5 {
        "5"
    } else if d == 6 {
        "6"
    } else if d == 7 {
        "7"
    } else if d == 8 {
        "8"
    } else {
        "9"
    }
}

fn push_decimal(out: &mut String, n: u64)
    ensures
        final(out)@ == old(out)@ + decimal(n as nat),
    decreases n,
{
    if n >= 10 {
        push_decimal(out, n / 10);
    }
    out.append(digit_str(n % 10));
    proof {
        assert(old(out)@ + decimal(n as nat) =~= if n >= 10 {
            old(out)@ + decimal((n / 10) as nat) + digit_text((n % 10) as int)
        } else {
            old(out)@ + digit_text((n % 10) as int)
        });
    }
}

fn count_digits(n: u64) -> (r: u64)
    ensures
        r == digit_count(n as nat),
        1 <= r <= n + 1,
    decreases n,
{
    if n < 10 {
        1
    } else {
        count_digits(n / 10) + 1
    }
}

fn push_padded(out: &mut String, n: u64, width: u64)
    ensures
        final(out)@ == old(out)@ + padded(n as nat, width as nat),
{
    let digits = count_digits(n);
    if digits < width {
        let mut k: u64 = 0;
        while k < width - digits
            invariant
                digits < width,
                k <= width - digits,
                out@ == old(out)@ + zeros(k as nat),
            decreases width - digits - k,
        {
            out.append("0");
            k += 1;
            proof {
                assert(out@ =~= old(out)@ + zeros(k as nat));
            }
        }
    }
    push_decimal(out, n);
    proof {
        assert(old(out)@ + padded(n as nat, width as nat) =~= if digits < width {
            old(out)@ + zeros((width - digits) as nat) + decimal(n as nat)
        } else {
            old(out)@ + decimal(n as nat)
        });
    }
}

fn push_coord(out: &mut String, v: i64)
    ensures
        final(out)@ == old(out)@ + coord_text(v as int),
{
    let a: u64 = if v < 0 {
        (0i128 - v as i128) as u64
    } else {
        v as u64
    };
    if v < 0 {
        out.append("-");
    }
    push_decimal(out, a / 100000);
    out.append(".");
    push_padded(out, a % 100000, 5);
    proof {
        let sign = if v < 0 {
            "-"@
        } else {
            Seq::<char>::empty()
        };
        assert(old(out)@ + coord_text(v as int) =~= old(out)@ + sign + decimal((a / 100000) as nat)
            + "."@ + padded((a % 100000) as nat, 5));
    }
}

/// Appends the `<time>` element of a composite time.
fn push_time(out: &mut String, time: u64)
    ensures
        final(out)@ == old(out)@ + time_text(time),
{
    let c = time_fields(time);
    out.append("<time>");
    push_decimal(out, c.year);
    out.append("-");
    push_padded(out, c.month, 2);
    out.append("-");
    push_padded(out, c.day, 2);
    out.append("T");
    push_padded(out, c.hour, 2);
    out.append(":");
    push_padded(out, c.minute, 2);
    out.append(":");
    push_padded(out, c.second, 2);
    out.append("Z</time>");
    proof {
        assert(out@ =~= old(out)@ + time_text(time));
    }
}

/// Appends the `<trkpt>` line of a waypoint.
fn push_trackpoint(out: &mut String, point: &GpsInfo)
    ensures
        final(out)@ == old(out)@ + trkpt_text(*point),
{
    out.append("<trkpt lat=\"");
    push_coord(out, point.lat);
    out.append("\" lon=\"");
    push_coord(out, point.lon);
    out.append("\"> ");
    push_time(out, point.time);
    out.append("</trkpt>\n");
    proof {
        assert(out@ =~= old(out)@ + trkpt_text(*point));
    }
}

/// The `<time>` element of a composite time, the time decoded with every
/// month taken to have 31 days.
pub fn time_element(time: u64) -> (r: String)
    ensures
        r@ == time_text(time),
{
    let mut out = String::new();
    push_time(&mut out, time);
    out
}

/// The `<trkpt>` line of a waypoint, coordinates with five decimals.
pub fn trackpoint_element(point: &GpsInfo) -> (r: String)
    ensures
        r@ == trkpt_text(*point),
{
    let mut out = String::new();
    push_trackpoint(&mut out, point);
    out
}

/// The GPX 1.1 document of a track named `map_name`: one track with one
/// segment holding the waypoints in the given order.
pub fn render_gpx(map_name: &str, track: &Vec<GpsInfo>) -> (r: String)
    ensures
        r@ == gpx_text(map_name@, track@),
{
    let mut out = String::new();
    out.append("<?xml version=\"1.0\" encoding=\"UTF-8\" standalone=\"yes\" ?>\n");
    out.append("<gpx version=\"1.1\" creator=\"git@github.com:vbendeb/exifgeo.git\">\n");
    out.append("<name>");
    out.append(map_name);
    out.append("</name>\n");
    out.append("<trk>\n");
    out.append("<name>");
    out.append(map_name);
    out.append("</name><number>1</number>\n");
    out.append("<trkseg>\n");
    let ghost head = out@;
    let mut i: usize = 0;
    while i < track.len()
        invariant
            i <= track@.len(),
            out@ == head + trkpts_text(track@.subrange(0, i as int)),
        decreases track@.len() - i,
    {
        push_trackpoint(&mut out, &track[i]);
        proof {
            assert(track@.subrange(0, i + 1).drop_last() =~= track@.subrange(0, i as int));
        }
        i += 1;
        proof {
            assert(out@ =~= head + trkpts_text(track@.subrange(0, i as int)));
        }
    }
    out.append("</trkseg>\n");
    out.append("</trk>\n");
    out.append("</gpx>\n");
    proof {
        assert(track@.subrange(0, i as int) =~= track@);
        assert(out@ =~= gpx_text(map_name@, track@));
    }
    out
}

} // verus!
