//! The iTunes normalization comment.
//!
//! The comment is ten fields, each a space followed by eight upper-case hex
//! digits: track gain against the 1000 and 2500 bases, album gain against
//! the same bases, two reserved zero fields, track and album sample peak,
//! and two more reserved zero fields.  Gains are capped at 65534.

use vstd::prelude::*;
use vstd::string::StringExecFns;

verus! {

/// The sixteen upper-case hex digits, lowest first.
pub open spec fn hex_digit(n: int) -> char {
    seq!['0', '1', '2', '3', '4', '5', '6', '7', '8', '9', 'A', 'B', 'C', 'D', 'E', 'F'][n]
}

pub open spec fn pow16(k: nat) -> int
    decreases k,
{
    if k == 0 {
        1
    } else {
        16 * pow16((k - 1) as nat)
    }
}

/// The hex digit of `x` with place value `16^k`.
pub open spec fn hex_nibble(x: u32, k: nat) -> int {
    (x as int / pow16(k)) % 16
}

/// `x` written as eight upper-case hex digits, most significant first.
pub open spec fn spec_hex8(x: u32) -> Seq<char> {
    Seq::new(8, |j: int| hex_digit(hex_nibble(x, (7 - j) as nat)))
}

proof fn lemma_pow16_values()
    ensures
        pow16(0) == 1,
        pow16(1) == 16,
        pow16(2) == 256,
        pow16(3) == 4096,
        pow16(4) == 65536,
        pow16(5) == 1048576,
        pow16(6) == 16777216,
        pow16(7) == 268435456,
{
    assert(pow16(0) == 1);
    assert(pow16(1) == 16 * pow16(0));
    assert(pow16(2) == 16 * pow16(1));
    assert(pow16(3) == 16 * pow16(2));
    assert(pow16(4) == 16 * pow16(3));
    assert(pow16(5) == 16 * pow16(4));
    assert(pow16(6) == 16 * pow16(5));
    assert(pow16(7) == 16 * pow16(6));
}

fn pow16_exec(k: usize) -> (r: u32)
    requires
        k <= 7,
    ensures
        r == pow16(k as nat),
        r >= 1,
{
    proof {
        lemma_pow16_values();
    }
    match k {
        0 => 1,
        1 => 16,
        2 => 256,
        3 => 4096,
        4 => 65536,
        5 => 1048576,
        6 => 16777216,
        _ => 268435456,
    }
}

fn hex_char_str(d: u32) -> (c: &'static str)
    requires
        d < 16,
    ensures
        c@ == seq![hex_digit(d as int)],
{
    let c: &'static str = match d {
        0 => "0",
        1 => "1",
        2 => "2",
        3 => "3",
        4 => "4",
        5 => "5",
        6 => "6",
        7 => "7",
        8 => "8",
        9 => "9",
        10 => "A",
        11 => "B",
        12 => "C",
        13 => "D",
        14 => "E",
        _ => "F",
    };
    proof {
        reveal_strlit("0");
        reveal_strlit("1");
        reveal_strlit("2");
        reveal_strlit("3");
        reveal_strlit("4");
        reveal_strlit("5");
        reveal_strlit("6");
        reveal_strlit("7");
        reveal_strlit("8");
        reveal_strlit("9");
        reveal_strlit("A");
        reveal_strlit("B");
        reveal_strlit("C");
        reveal_strlit("D");
        reveal_strlit("E");
        reveal_strlit("F");
        assert(c@ =~= seq![hex_digit(d as int)]);
    }
    c
}

/// `x` as a string of eight upper-case hex digits.
pub fn hex8(x: u32) -> (s: String)
    ensures
        s@ == spec_hex8(x),
{
    let mut s = String::new();
    let mut j: usize = 0;
    while j < 8
        invariant
            j <= 8,
            s@ == spec_hex8(x).take(j as int),
        decreases 8 - j,
    {
        let k = 7 - j;
        let div = pow16_exec(k);
        let d = (x / div) % 16;
        let cs = hex_char_str(d);
        s.append(cs);
        proof {
            assert(d == hex_nibble(x, (7 - j) as nat));
            assert(s@ =~= spec_hex8(x).take(j as int + 1));
        }
        j = j + 1;
    }
    proof {
        assert(spec_hex8(x).take(8) =~= spec_hex8(x));
    }
    s
}

/// A reserved field: eight zero digits.
pub open spec fn zeros8() -> Seq<char> {
    Seq::new(8, |i: int| '0')
}

/// The whole comment text for the six field values.
pub open spec fn spec_itunnorm(a: u32, b: u32, c: u32, d: u32, e: u32, f: u32) -> Seq<char> {
    seq![' '] + spec_hex8(a) + seq![' '] + spec_hex8(b) + seq![' '] + spec_hex8(c) + seq![' ']
        + spec_hex8(d) + seq![' '] + zeros8() + seq![' '] + zeros8() + seq![' '] + spec_hex8(e)
        + seq![' '] + spec_hex8(f) + seq![' '] + zeros8() + seq![' '] + zeros8()
}

/// Gain fields are capped: a very quiet source would ask for more
/// amplification than the format can carry, and the cap keeps the field
/// meaningful.
pub fn clamp_gain(x: u64) -> (r: u32)
    ensures
        r == if x > 65534 {
            65534int
        } else {
            x as int
        },
{
    if x > 65534 {
        65534
    } else {
        x as u32
    }
}

/// Write the comment text from the six field values.
pub fn format_normalization(a: u32, b: u32, c: u32, d: u32, e: u32, f: u32) -> (s: String)
    ensures
        s@ == spec_itunnorm(a, b, c, d, e, f),
        s@.len() == 90,
        s@[0] == ' ',
{
    proof {
        reveal_strlit(" ");
        reveal_strlit("00000000");
        assert(" "@ =~= seq![' ']);
        assert("00000000"@ =~= zeros8());
    }
    let mut s = String::new();
    s.append(" ");
    let ha = hex8(a);
    s.append(ha.as_str());
    s.append(" ");
    let hb = hex8(b);
    s.append(hb.as_str());
    s.append(" ");
    let hc = hex8(c);
    s.append(hc.as_str());
    s.append(" ");
    let hd = hex8(d);
    s.append(hd.as_str());
    s.append(" ");
    s.append("00000000");
    s.append(" ");
    s.append("00000000");
    s.append(" ");
    let he = hex8(e);
    s.append(he.as_str());
    s.append(" ");
    let hf = hex8(f);
    s.append(hf.as_str());
    s.append(" ");
    s.append("00000000");
    s.append(" ");
    s.append("00000000");
    proof {
        assert(s@ =~= spec_itunnorm(a, b, c, d, e, f));
        lemma_itunnorm_fields(s@, a, b, c, d, e, f);
    }
    s
}

/// The integer inputs of one normalization comment: a gain field for each of
/// the two bases, and the rounded sample peak.
#[derive(Clone, Copy)]
pub struct NormParams {
    pub gain_1000: u32,
    pub gain_2500: u32,
    pub peak: u32,
}

/// The album-side values of a comment: the album's own, where the track
/// belongs to a group, and the track's otherwise.
pub open spec fn spec_album_resolved(track: NormParams, album: Option<NormParams>) -> NormParams {
    match album {
        Some(p) => p,
        None => track,
    }
}

/// Produce the normalization comment for one track.
///
/// A track with no album group (a compilation, or one with artist or album
/// missing) repeats its own values in the album fields.
pub fn write_normalization(track: NormParams, album: Option<NormParams>) -> (s: String)
    ensures
        s@ == spec_itunnorm(
            track.gain_1000,
            spec_album_resolved(track, album).gain_1000,
            track.gain_2500,
            spec_album_resolved(track, album).gain_2500,
            track.peak,
            spec_album_resolved(track, album).peak,
        ),
        album is None ==> s@ == spec_itunnorm(
            track.gain_1000,
            track.gain_1000,
            track.gain_2500,
            track.gain_2500,
            track.peak,
            track.peak,
        ),
        s@.len() == 90,
        s@[0] == ' ',
{
    let ab = match album {
        Some(p) => p,
        None => track,
    };
    format_normalization(track.gain_1000, ab.gain_1000, track.gain_2500, ab.gain_2500, track.peak, ab.peak)
}

/// Where each field of the comment lies: ten fields of nine characters, each
/// a space and eight hex digits, ninety characters in all.
pub proof fn lemma_itunnorm_fields(s: Seq<char>, a: u32, b: u32, c: u32, d: u32, e: u32, f: u32)
    requires
        s == spec_itunnorm(a, b, c, d, e, f),
    ensures
        s.len() == 90,
        s[0] == ' ',
        s[9] == ' ',
        s[18] == ' ',
        s[27] == ' ',
        s[36] == ' ',
        s[45] == ' ',
        s[54] == ' ',
        s[63] == ' ',
        s[72] == ' ',
        s[81] == ' ',
        s.subrange(1, 9) == spec_hex8(a),
        s.subrange(10, 18) == spec_hex8(b),
        s.subrange(19, 27) == spec_hex8(c),
        s.subrange(28, 36) == spec_hex8(d),
        s.subrange(37, 45) == zeros8(),
        s.subrange(46, 54) == zeros8(),
        s.subrange(55, 63) == spec_hex8(e),
        s.subrange(64, 72) == spec_hex8(f),
        s.subrange(73, 81) == zeros8(),
        s.subrange(82, 90) == zeros8(),
{
    assert(s.subrange(1, 9) =~= spec_hex8(a));
    assert(s.subrange(10, 18) =~= spec_hex8(b));
    assert(s.subrange(19, 27) =~= spec_hex8(c));
    assert(s.subrange(28, 36) =~= spec_hex8(d));
    assert(s.subrange(37, 45) =~= zeros8());
    assert(s.subrange(46, 54) =~= zeros8());
    assert(s.subrange(55, 63) =~= spec_hex8(e));
    assert(s.subrange(64, 72) =~= spec_hex8(f));
    assert(s.subrange(73, 81) =~= zeros8());
    assert(s.subrange(82, 90) =~= zeros8());
}

/// Tracks of one album group agree on the album fields: two comments written
/// against the same album values carry the same second, fourth and eighth
/// field, whatever the tracks' own values are.
pub proof fn lemma_shared_album_fields(t1: NormParams, t2: NormParams, alb: NormParams)
    ensures
        spec_itunnorm(
            t1.gain_1000,
            alb.gain_1000,
            t1.gain_2500,
            alb.gain_2500,
            t1.peak,
            alb.peak,
        ).subrange(10, 18) == spec_itunnorm(
            t2.gain_1000,
            alb.gain_1000,
            t2.gain_2500,
            alb.gain_2500,
            t2.peak,
            alb.peak,
        ).subrange(10, 18),
        spec_itunnorm(
            t1.gain_1000,
            alb.gain_1000,
            t1.gain_2500,
            alb.gain_2500,
            t1.peak,
            alb.peak,
        ).subrange(28, 36) == spec_itunnorm(
            t2.gain_1000,
            alb.gain_1000,
            t2.gain_2500,
            alb.gain_2500,
            t2.peak,
            alb.peak,
        ).subrange(28, 36),
        spec_itunnorm(
            t1.gain_1000,
            alb.gain_1000,
            t1.gain_2500,
            alb.gain_2500,
            t1.peak,
            alb.peak,
        ).subrange(64, 72) == spec_itunnorm(
            t2.gain_1000,
            alb.gain_1000,
            t2.gain_2500,
            alb.gain_2500,
            t2.peak,
            alb.peak,
        ).subrange(64, 72),
{
    lemma_itunnorm_fields(
        spec_itunnorm(t1.gain_1000, alb.gain_1000, t1.gain_2500, alb.gain_2500, t1.peak, alb.peak),
        t1.gain_1000,
        alb.gain_1000,
        t1.gain_2500,
        alb.gain_2500,
        t1.peak,
        alb.peak,
    );
    lemma_itunnorm_fields(
        spec_itunnorm(t2.gain_1000, alb.gain_1000, t2.gain_2500, alb.gain_2500, t2.peak, alb.peak),
        t2.gain_1000,
        alb.gain_1000,
        t2.gain_2500,
        alb.gain_2500,
        t2.peak,
        alb.peak,
    );
}

/// A track outside any album group repeats its own values: in its comment the
/// album gain and peak fields read exactly as the track fields.
pub proof fn lemma_lone_track_fields(t: NormParams)
    ensures
        spec_itunnorm(
            t.gain_1000,
            t.gain_1000,
            t.gain_2500,
            t.gain_2500,
            t.peak,
            t.peak,
        ).subrange(10, 18) == spec_itunnorm(
            t.gain_1000,
            t.gain_1000,
            t.gain_2500,
            t.gain_2500,
            t.peak,
            t.peak,
        ).subrange(1, 9),
        spec_itunnorm(
            t.gain_1000,
            t.gain_1000,
            t.gain_2500,
            t.gain_2500,
            t.peak,
            t.peak,
        ).subrange(28, 36) == spec_itunnorm(
            t.gain_1000,
            t.gain_1000,
            t.gain_2500,
            t.gain_2500,
            t.peak,
            t.peak,
        ).subrange(19, 27),
        spec_itunnorm(
            t.gain_1000,
            t.gain_1000,
            t.gain_2500,
            t.gain_2500,
            t.peak,
            t.peak,
        ).subrange(64, 72) == spec_itunnorm(
            t.gain_1000,
            t.gain_1000,
            t.gain_2500,
            t.gain_2500,
            t.peak,
            t.peak,
        ).subrange(55, 63),
{
    lemma_itunnorm_fields(
        spec_itunnorm(t.gain_1000, t.gain_1000, t.gain_2500, t.gain_2500, t.peak, t.peak),
        t.gain_1000,
        t.gain_1000,
        t.gain_2500,
        t.gain_2500,
        t.peak,
        t.peak,
    );
}

} // verus!
