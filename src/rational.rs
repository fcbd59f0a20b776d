use vstd::prelude::*;
use crate::cursor::{BufReader, le_u32};
use crate::error::GeoError;

verus! {

/// An unsigned EXIF rational: `num / den`.
#[derive(Debug, Clone, Copy, PartialEq, Eq, Structural)]
pub struct Rational {
    pub num: u32,
    pub den: u32,
}

/// Size in bytes of three rationals as stored in EXIF.
pub const TRIPLE_SIZE: usize = 24;

/// Number of 1e-5 degree steps in one degree.
pub const COORD_SCALE: u64 = 100000;

/// The rational stored at `at`: a little-endian numerator followed by a
/// little-endian denominator.
pub open spec fn rational_at(s: Seq<u8>, at: int) -> Rational {
    Rational { num: le_u32(s, at) as u32, den: le_u32(s, at + 4) as u32 }
}

/// The three rationals stored from `at` on.
pub open spec fn triple_at(s: Seq<u8>, at: int) -> Seq<Rational> {
    seq![rational_at(s, at), rational_at(s, at + 8), rational_at(s, at + 16)]
}

/// No denominator of the triple is zero.
pub open spec fn dens_nonzero(t: Seq<Rational>) -> bool {
    t[0].den != 0 && t[1].den != 0 && t[2].den != 0
}

/// Product of the three denominators.
pub open spec fn common_den(t: Seq<Rational>) -> int {
    t[0].den as int * t[1].den as int * t[2].den as int
}

/// `a * 3600 + b * 60 + c` for the triple `a, b, c`, scaled by the common
/// denominator so that it is an integer.
pub open spec fn sexagesimal_num(t: Seq<Rational>) -> int {
    3600 * (t[0].num as int * t[1].den as int * t[2].den as int) + 60 * (t[1].num as int
        * t[0].den as int * t[2].den as int) + (t[2].num as int * t[0].den as int
        * t[1].den as int)
}

/// Whole seconds of an hours, minutes, seconds triple, rounded down.
pub open spec fn seconds_of(t: Seq<Rational>) -> int {
    sexagesimal_num(t) / common_den(t)
}

/// Degrees + minutes / 60 + seconds / 3600 of a degrees, minutes, seconds
/// triple, in steps of 1e-5 degree, rounded down.
pub open spec fn coord_units_of(t: Seq<Rational>) -> int {
    (COORD_SCALE * sexagesimal_num(t)) / (3600 * common_den(t))
}

/// Upper bound of `a * 3600 + b * 60 + c` over 32-bit numerators.
pub open spec fn max_sexagesimal() -> int {
    3661 * 0xffff_ffffint
}

proof fn lemma_num_bounds(t: Seq<Rational>)
    requires
        t.len() == 3,
        dens_nonzero(t),
    ensures
        0 < common_den(t) <= 0xffff_ffff * 0xffff_ffff * 0xffff_ffff,
        0 <= sexagesimal_num(t) <= max_sexagesimal() * common_den(t),
{
    let (n0, n1, n2) = (t[0].num as int, t[1].num as int, t[2].num as int);
    let (d0, d1, d2) = (t[0].den as int, t[1].den as int, t[2].den as int);
    let m: int = 0xffff_ffff;
    assert(0 < d0 * d1 * d2 <= m * m * m) by (nonlinear_arith)
        requires
            1 <= d0 <= m,
            1 <= d1 <= m,
            1 <= d2 <= m,
    ;
    assert(0 <= 3600 * (n0 * d1 * d2) + 60 * (n1 * d0 * d2) + (n2 * d0 * d1) <= 3661 * m * (d0 * d1
        * d2)) by (nonlinear_arith)
        requires
            1 <= d0 <= m,
            1 <= d1 <= m,
            1 <= d2 <= m,
            0 <= n0 <= m,
            0 <= n1 <= m,
            0 <= n2 <= m,
    ;
}

/// Reads the three rationals stored at `offset`, leaving the read position
/// where it was.
pub fn read_rationals(buf: &mut BufReader, offset: u32) -> (r: Result<[Rational; 3], GeoError>)
    requires
        old(buf).wf(),
    ensures
        final(buf).wf(),
        final(buf).data() == old(buf).data(),
        final(buf).pos() == old(buf).pos(),
        final(buf).saved() == old(buf).saved(),
        r is Ok <==> offset < old(buf).data().len() && offset + TRIPLE_SIZE <= old(buf).data().len(),
        r matches Ok(t) ==> t@ == triple_at(old(buf).data(), offset as int),
        r is Err ==> r == Err::<[Rational; 3], GeoError>(GeoError::UnexpectedEnd),
{
    let b = buf.read_at(offset as usize, TRIPLE_SIZE)?;
    let r0 = Rational { num: le_u32_of(&b, 0), den: le_u32_of(&b, 4) };
    let r1 = Rational { num: le_u32_of(&b, 8), den: le_u32_of(&b, 12) };
    let r2 = Rational { num: le_u32_of(&b, 16), den: le_u32_of(&b, 20) };
    let t = [r0, r1, r2];
    proof {
        let s = buf.data();
        let o = offset as int;
        assert(b@ == s.subrange(o, o + 24));
        assert(t@ =~= triple_at(s, o));
    }
    Ok(t)
}

/// Little-endian 32-bit value of the four bytes of `b` from `at` on.
fn le_u32_of(b: &Vec<u8>, at: usize) -> (r: u32)
    requires
        at + 4 <= b.len(),
    ensures
        r == le_u32(b@, at as int),
{
    let x0 = b[at] as u32;
    let x1 = b[at + 1] as u32;
    let x2 = b[at + 2] as u32;
    let x3 = b[at + 3] as u32;
    assert(x0 <= 255 && x1 <= 255 && x2 <= 255 && x3 <= 255);
    x0 + 256 * x1 + 65536 * x2 + 16777216 * x3
}

/// Numerator and denominator of `a * 3600 + b * 60 + c`.
fn sexagesimal_parts(t: &[Rational; 3]) -> (r: (u128, u128))
    requires
        dens_nonzero(t@),
    ensures
        r.0 == sexagesimal_num(t@),
        r.1 == common_den(t@),
        r.1 > 0,
        r.0 <= max_sexagesimal() * r.1,
        r.1 <= 0xffff_ffff * 0xffff_ffff * 0xffff_ffff,
        r.0 <= 3661 * (0xffff_ffff * 0xffff_ffff * 0xffff_ffff),
{
    proof {
        lemma_num_bounds(t@);
    }
    let (n0, n1, n2) = (t[0].num as u128, t[1].num as u128, t[2].num as u128);
    let (d0, d1, d2) = (t[0].den as u128, t[1].den as u128, t[2].den as u128);
    let m: u128 = 0xffff_ffff;
    proof {
        assert(n0 * d1 <= m * m && n1 * d0 <= m * m && n2 * d0 <= m * m && d0 * d1 <= m * m)
            by (nonlinear_arith)
            requires
                n0 <= m,
                n1 <= m,
                n2 <= m,
                d0 <= m,
                d1 <= m,
        ;
        assert(n0 * d1 * d2 <= m * m * m && n1 * d0 * d2 <= m * m * m && n2 * d0 * d1 <= m * m * m)
            by (nonlinear_arith)
            requires
                n0 <= m,
                n1 <= m,
                n2 <= m,
                d0 <= m,
                d1 <= m,
                d2 <= m,
        ;
    }
    let num = 3600 * (n0 * d1 * d2) + 60 * (n1 * d0 * d2) + n2 * d0 * d1;
    let den = d0 * d1 * d2;
    (num, den)
}

/// Whole seconds of an hours, minutes, seconds triple, rounded down; fails
/// on a zero denominator.
pub fn seconds_from_rationals(t: &[Rational; 3]) -> (r: Result<u64, GeoError>)
    ensures
        r is Ok <==> dens_nonzero(t@),
        r matches Ok(v) ==> v == seconds_of(t@) && v <= max_sexagesimal(),
        r is Err ==> r == Err::<u64, GeoError>(GeoError::ZeroDenominator),
{
    if t[0].den == 0 || t[1].den == 0 || t[2].den == 0 {
        return Err(GeoError::ZeroDenominator);
    }
    let (num, den) = sexagesimal_parts(t);
    let q = num / den;
    proof {
        let k = max_sexagesimal();
        assert(q <= k) by (nonlinear_arith)
            requires
                q == num / den,
                den > 0,
                num <= k * den,
        ;
    }
    Ok(q as u64)
}

/// A degrees, minutes, seconds triple in steps of 1e-5 degree, rounded
/// down; fails on a zero denominator.
pub fn coordinate_from_rationals(t: &[Rational; 3]) -> (r: Result<u64, GeoError>)
    ensures
        r is Ok <==> dens_nonzero(t@),
        r matches Ok(v) ==> v == coord_units_of(t@) && v <= max_coord_units(),
        r is Err ==> r == Err::<u64, GeoError>(GeoError::ZeroDenominator),
{
    if t[0].den == 0 || t[1].den == 0 || t[2].den == 0 {
        return Err(GeoError::ZeroDenominator);
    }
    let (num, den) = sexagesimal_parts(t);
    let q = (100000 * num) / (3600 * den);
    proof {
        let k = max_sexagesimal();
        assert(q <= max_coord_units()) by (nonlinear_arith)
            requires
                q == (100000 * num) / (3600 * den),
                den > 0,
                num <= k * den,
                k == 3661 * 0xffff_ffff,
                max_coord_units() == 100000 * 3661 * 0xffff_ffff / 3600,
        ;
    }
    Ok(q as u64)
}

/// Upper bound of a coordinate in steps of 1e-5 degree over 32-bit
/// rationals.
pub open spec fn max_coord_units() -> int {
    100000 * 3661 * 0xffff_ffffint / 3600
}

/// The four little-endian bytes of a 32-bit value.
pub open spec fn le_u32_bytes(v: u32) -> Seq<u8> {
    seq![
        (v % 256) as u8,
        ((v / 256) % 256) as u8,
        ((v / 65536) % 256) as u8,
        (v / 16777216) as u8,
    ]
}

/// Three rationals as EXIF stores them: numerator, then denominator, each
/// in four little-endian bytes.
pub open spec fn triple_bytes(t: Seq<Rational>) -> Seq<u8> {
    le_u32_bytes(t[0].num) + le_u32_bytes(t[0].den) + le_u32_bytes(t[1].num) + le_u32_bytes(
        t[1].den,
    ) + le_u32_bytes(t[2].num) + le_u32_bytes(t[2].den)
}

proof fn lemma_le_u32_bytes(s: Seq<u8>, at: int, v: u32)
    requires
        0 <= at,
        at + 4 <= s.len(),
        s.subrange(at, at + 4) == le_u32_bytes(v),
    ensures
        le_u32(s, at) == v,
{
    let b = le_u32_bytes(v);
    assert(s[at] == b[0] && s[at + 1] == b[1] && s[at + 2] == b[2] && s[at + 3] == b[3]);
    let x = v as int;
    assert(x == x % 256 + 256 * ((x / 256) % 256) + 65536 * ((x / 65536) % 256) + 16777216 * (x
        / 16777216)) by (nonlinear_arith)
        requires
            0 <= x < 0x1_0000_0000,
    ;
}

/// Three rationals stored anywhere in a buffer are read back exactly, each
/// as the numerator and denominator that were stored, whatever surrounds
/// them.
pub proof fn lemma_triple_read_exact(before: Seq<u8>, t: Seq<Rational>, after: Seq<u8>)
    requires
        t.len() == 3,
    ensures
        triple_at(before + triple_bytes(t) + after, before.len() as int) == t,
{
    let s = before + triple_bytes(t) + after;
    let o = before.len() as int;
    let vals = seq![t[0].num, t[0].den, t[1].num, t[1].den, t[2].num, t[2].den];
    assert forall|k: int| 0 <= k < 6 implies le_u32(s, o + 4 * k) == #[trigger] vals[k] by {
        assert(s.subrange(o + 4 * k, o + 4 * k + 4) =~= le_u32_bytes(vals[k]));
        lemma_le_u32_bytes(s, o + 4 * k, vals[k]);
    }
    assert(le_u32(s, o) == vals[0]);
    assert(le_u32(s, o + 4) == vals[1]);
    assert(le_u32(s, o + 8) == vals[2]);
    assert(le_u32(s, o + 12) == vals[3]);
    assert(le_u32(s, o + 16) == vals[4]);
    assert(le_u32(s, o + 20) == vals[5]);
    assert(triple_at(s, o) =~= t);
}

/// For whole degrees, minutes and seconds the coordinate is
/// `degrees + (minutes * 60 + seconds) / 3600` in steps of 1e-5 degree,
/// rounded down.
pub proof fn lemma_whole_coordinate(degrees: u32, minutes: u32, seconds: u32)
    ensures
        coord_units_of(
            seq![
                Rational { num: degrees, den: 1 },
                Rational { num: minutes, den: 1 },
                Rational { num: seconds, den: 1 },
            ],
        ) == (COORD_SCALE * (3600 * degrees + 60 * minutes + seconds)) / 3600,
{
    let t = seq![
        Rational { num: degrees, den: 1 },
        Rational { num: minutes, den: 1 },
        Rational { num: seconds, den: 1 },
    ];
    assert(t[0].den == 1 && t[1].den == 1 && t[2].den == 1);
    let (d0, d1, d2) = (t[0].den as int, t[1].den as int, t[2].den as int);
    let (n0, n1, n2) = (t[0].num as int, t[1].num as int, t[2].num as int);
    assert(d0 * d1 * d2 == 1 && 3600 * (n0 * d1 * d2) + 60 * (n1 * d0 * d2) + n2 * d0 * d1 == 3600
        * n0 + 60 * n1 + n2) by (nonlinear_arith)
        requires
            d0 == 1,
            d1 == 1,
            d2 == 1,
    ;
    assert(common_den(t) == 1);
    assert(sexagesimal_num(t) == 3600 * degrees + 60 * minutes + seconds);
}

} // verus!
