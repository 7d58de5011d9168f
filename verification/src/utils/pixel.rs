use vstd::prelude::*;

use crate::utils::num::UNIT;
use vstd::string::StringExecFns;
use vstd::string::StringSliceAdditionalSpecFns;

verus! {

/// Fixed-point luma weights (Rec. 601), scaled by `UNIT`; they sum to `UNIT`
/// exactly so a full-white pixel maps to exactly 1.0.
pub const LUMA_R: i64 = 19595;

pub const LUMA_G: i64 = 38470;

pub const LUMA_B: i64 = 7471;

/// An RGBA color with eight-bit channels.
#[derive(Clone, Copy, Debug, PartialEq, Eq, Structural)]
pub struct RGB {
    pub r: u8,
    pub g: u8,
    pub b: u8,
    pub a: u8,
}

/// Fixed-point luma of an eight-bit RGB triple, in `[0, UNIT]`.
pub open spec fn luma_of(r: u8, g: u8, b: u8) -> int {
    (r * LUMA_R + g * LUMA_G + b * LUMA_B) / 255
}

impl RGB {
    pub fn from_u8(r: u8, g: u8, b: u8, a: u8) -> (c: RGB)
        ensures
            c == (RGB { r, g, b, a }),
    {
        RGB { r, g, b, a }
    }

    /// Parse a hex color as the configuration collaborator writes it:
    /// whitespace around the string and any `#` inside it are dropped, and
    /// the first six remaining characters — either case — give the channels.
    pub fn from_hex(string: &str) -> (c: Option<RGB>)
        ensures
            c == spec_from_hex(string.spec_bytes()),
    {
        let bytes = string.as_bytes();
        let n = bytes.len();
        // Skip whitespace at the front.
        let mut lo: usize = 0;
        while lo < n && space_byte(bytes[lo])
            invariant
                lo <= n,
                bytes@ == string.spec_bytes(),
                n == bytes@.len(),
                forall|k: int| 0 <= k < lo ==> is_space(#[trigger] bytes@[k]),
            decreases n - lo,
        {
            lo = lo + 1;
        }
        // Skip whitespace at the back.
        let mut hi: usize = n;
        while hi > lo && space_byte(bytes[hi - 1])
            invariant
                lo <= hi <= n,
                bytes@ == string.spec_bytes(),
                n == bytes@.len(),
                lo < n ==> !is_space(bytes@[lo as int]),
                forall|k: int| 0 <= k < lo ==> is_space(#[trigger] bytes@[k]),
                forall|k: int| hi <= k < n ==> is_space(#[trigger] bytes@[k]),
            decreases hi,
        {
            hi = hi - 1;
        }
        let ghost t = bytes@.subrange(lo as int, hi as int);
        proof {
            lemma_trim_front_skip(bytes@, lo as int);
            let u = bytes@.skip(lo as int);
            assert forall|k: int| (hi - lo) <= k < u.len() implies is_space(#[trigger] u[k]) by {
                assert(u[k] == bytes@[lo + k]);
            }
            assert(hi - lo > 0 ==> !is_space(u[hi - lo - 1])) by {
                if hi - lo > 0 {
                    assert(u[hi - lo - 1] == bytes@[hi - 1]);
                }
            }
            lemma_trim_back_take(u, (hi - lo) as int);
            assert(u.take((hi - lo) as int) =~= t);
            assert(trim_back(trim_front(bytes@)) == t);
        }
        // Collect the first six characters that are not `#`.
        let mut digits: Vec<u8> = Vec::new();
        let mut j: usize = lo;
        proof {
            assert(t.skip(0) =~= t);
            assert(Seq::<u8>::empty() + strip_hash(t) =~= strip_hash(t));
        }
        while j < hi && digits.len() < 6
            invariant
                lo <= j <= hi <= n,
                bytes@ == string.spec_bytes(),
                n == bytes@.len(),
                t == bytes@.subrange(lo as int, hi as int),
                trim_back(trim_front(bytes@)) == t,
                digits@.len() <= 6,
                strip_hash(t) == digits@ + strip_hash(t.skip(j - lo)),
            decreases hi - j,
        {
            let b = bytes[j];
            let ghost rest = t.skip((j - lo) as int);
            proof {
                assert(rest.len() == hi - j);
                assert(rest[0] == t[(j - lo) as int]);
                assert(t[(j - lo) as int] == bytes@[j as int]);
                assert(rest.skip(1) =~= t.skip((j + 1 - lo) as int));
            }
            if b != 35 {
                let ghost pre = digits@;
                digits.push(b);
                proof {
                    assert(strip_hash(rest) == seq![b] + strip_hash(rest.skip(1)));
                    assert(digits@ =~= pre + seq![b]);
                    assert(pre + (seq![b] + strip_hash(rest.skip(1))) =~= (pre + seq![b])
                        + strip_hash(rest.skip(1)));
                }
            } else {
                proof {
                    assert(strip_hash(rest) == strip_hash(rest.skip(1)));
                }
            }
            j = j + 1;
        }
        let ghost d = clean_hex(string.spec_bytes());
        proof {
            assert(d == strip_hash(t));
            if digits@.len() < 6 {
                // The characters ran out: the cleaned string is exactly what
                // was collected, and it is too short.
                assert(t.skip((j - lo) as int) =~= Seq::<u8>::empty());
                assert(strip_hash(t.skip((j - lo) as int)) == Seq::<u8>::empty());
                assert(d =~= digits@);
            } else {
                // The first six cleaned characters are the collected ones.
                assert(d.len() >= 6);
                assert(forall|k: int| 0 <= k < 6 ==> d[k] == #[trigger] digits@[k]);
            }
        }
        if digits.len() < 6 {
            return None;
        }
        // Validate the six digits and assemble the channels.
        let mut vals: Vec<u8> = Vec::new();
        let mut i: usize = 0;
        while i < 6
            invariant
                i <= 6,
                d == clean_hex(string.spec_bytes()),
                d.len() >= 6,
                digits@.len() == 6,
                forall|k: int| 0 <= k < 6 ==> d[k] == #[trigger] digits@[k],
                vals@.len() == i,
                forall|k: int| 0 <= k < i ==> hex_digit_val(#[trigger] d[k]) >= 0,
                forall|k: int| 0 <= k < i ==> #[trigger] vals@[k] == hex_digit_val(d[k]),
            decreases 6 - i,
        {
            match hex_digit(digits[i]) {
                Some(v) => {
                    vals.push(v);
                },
                None => {
                    proof {
                        assert(hex_digit_val(d[i as int]) < 0);
                    }
                    return None;
                },
            }
            i = i + 1;
        }
        proof {
            assert(forall|k: int| 0 <= k < 6 ==> 0 <= #[trigger] vals@[k] <= 15);
        }
        let c = RGB {
            r: vals[0] * 16 + vals[1],
            g: vals[2] * 16 + vals[3],
            b: vals[4] * 16 + vals[5],
            a: 255,
        };
        Some(c)
    }

    /// Perceptual gray value of the color, as a fixed-point fraction of `UNIT`.
    pub fn grayscale(&self) -> (v: u32)
        ensures
            v == luma_of(self.r, self.g, self.b),
            v <= UNIT,
    {
        let acc: i64 = (self.r as i64) * LUMA_R + (self.g as i64) * LUMA_G + (self.b as i64)
            * LUMA_B;
        assert(acc / 255 <= UNIT) by {
            assert(acc <= 255 * (LUMA_R + LUMA_G + LUMA_B));
        };
        (acc / 255) as u32
    }

    /// The color with every channel set to its gray value.
    pub fn to_grayscale(&self) -> (c: RGB)
        ensures
            c.r == c.g == c.b,
            c.r == luma_of(self.r, self.g, self.b) * 255 / (UNIT as int),
            c.a == self.a,
    {
        let l = self.grayscale();
        let byte: u32 = l * 255 / (UNIT as u32);
        proof {
            assert(byte <= 255) by (nonlinear_arith)
                requires
                    byte == (l as int) * 255 / (UNIT as int),
                    0 <= l <= UNIT,
            ;
        }
        RGB { r: byte as u8, g: byte as u8, b: byte as u8, a: self.a }
    }

    /// Pack the three color channels into one integer, highest channel first.
    pub fn to_i32(&self) -> (v: i32)
        ensures
            v == self.r * 65536 + self.g * 256 + self.b,
    {
        (self.r as i32) * 65536 + (self.g as i32) * 256 + (self.b as i32)
    }

    /// Render the three color channels as unpadded uppercase hex, in order.
    pub fn to_hex(&self) -> (s: String)
        ensures
            s@ == spec_to_hex(*self),
    {
        let mut out = String::new();
        push_hex_channel(&mut out, self.r);
        push_hex_channel(&mut out, self.g);
        push_hex_channel(&mut out, self.b);
        proof {
            assert(out@ =~= spec_to_hex(*self));
        }
        out
    }
}

/// Value of one hexadecimal digit byte, either case, or -1 for any other
/// byte.
pub open spec fn hex_digit_val(b: u8) -> int {
    if 48 <= b <= 57 {
        b - 48
    } else if 97 <= b <= 102 {
        b - 87
    } else if 65 <= b <= 70 {
        b - 55
    } else {
        -1
    }
}

/// The channel value of two hexadecimal digit bytes.
pub open spec fn hex_byte_val(hi: u8, lo: u8) -> int {
    hex_digit_val(hi) * 16 + hex_digit_val(lo)
}

/// ASCII whitespace, as trimming removes at both ends.
pub open spec fn is_space(b: u8) -> bool {
    b == 32 || 9 <= b <= 13
}

/// The bytes with leading whitespace removed.
pub open spec fn trim_front(s: Seq<u8>) -> Seq<u8>
    decreases s.len(),
{
    if s.len() > 0 && is_space(s[0]) {
        trim_front(s.skip(1))
    } else {
        s
    }
}

/// The bytes with trailing whitespace removed.
pub open spec fn trim_back(s: Seq<u8>) -> Seq<u8>
    decreases s.len(),
{
    if s.len() > 0 && is_space(s[s.len() - 1]) {
        trim_back(s.take(s.len() - 1))
    } else {
        s
    }
}

/// The bytes with every `#` removed.
pub open spec fn strip_hash(s: Seq<u8>) -> Seq<u8>
    decreases s.len(),
{
    if s.len() == 0 {
        Seq::empty()
    } else if s[0] == 35 {
        strip_hash(s.skip(1))
    } else {
        seq![s[0]] + strip_hash(s.skip(1))
    }
}

/// A hex color string as the parser sees it: whitespace trimmed from both
/// ends, then every `#` removed.
pub open spec fn clean_hex(bytes: Seq<u8>) -> Seq<u8> {
    strip_hash(trim_back(trim_front(bytes)))
}

/// The color a hex string denotes: after cleaning, at least six hexadecimal
/// digits — either case — of which the first six give the three channel
/// bytes, fully opaque. Fewer than six characters, or a non-digit among the
/// first six, denote nothing.
pub open spec fn spec_from_hex(bytes: Seq<u8>) -> Option<RGB> {
    let d = clean_hex(bytes);
    if d.len() >= 6 && hex_digit_val(d[0]) >= 0 && hex_digit_val(d[1]) >= 0 && hex_digit_val(d[2])
        >= 0 && hex_digit_val(d[3]) >= 0 && hex_digit_val(d[4]) >= 0 && hex_digit_val(d[5]) >= 0 {
        Some(
            RGB {
                r: hex_byte_val(d[0], d[1]) as u8,
                g: hex_byte_val(d[2], d[3]) as u8,
                b: hex_byte_val(d[4], d[5]) as u8,
                a: 255,
            },
        )
    } else {
        None
    }
}

/// Trimming the front removes exactly the leading run of whitespace.
proof fn lemma_trim_front_skip(s: Seq<u8>, lo: int)
    requires
        0 <= lo <= s.len(),
        forall|k: int| 0 <= k < lo ==> is_space(#[trigger] s[k]),
        lo < s.len() ==> !is_space(s[lo]),
    ensures
        trim_front(s) == s.skip(lo),
    decreases lo,
{
    if lo == 0 {
        assert(s.skip(0) =~= s);
    } else {
        let t = s.skip(1);
        assert(is_space(s[0]));
        assert forall|k: int| 0 <= k < lo - 1 implies is_space(#[trigger] t[k]) by {
            assert(t[k] == s[k + 1]);
        }
        assert(lo - 1 < t.len() ==> !is_space(t[lo - 1])) by {
            if lo - 1 < t.len() {
                assert(t[lo - 1] == s[lo]);
            }
        }
        lemma_trim_front_skip(t, lo - 1);
        assert(t.skip(lo - 1) =~= s.skip(lo));
    }
}

/// Trimming the back removes exactly the trailing run of whitespace.
proof fn lemma_trim_back_take(s: Seq<u8>, hi: int)
    requires
        0 <= hi <= s.len(),
        forall|k: int| hi <= k < s.len() ==> is_space(#[trigger] s[k]),
        hi > 0 ==> !is_space(s[hi - 1]),
    ensures
        trim_back(s) == s.take(hi),
    decreases s.len(),
{
    if hi == s.len() {
        assert(s.take(hi) =~= s);
    } else {
        assert(is_space(s[s.len() - 1]));
        let t = s.take(s.len() - 1);
        assert forall|k: int| hi <= k < t.len() implies is_space(#[trigger] t[k]) by {
            assert(t[k] == s[k]);
        }
        assert(hi > 0 ==> !is_space(t[hi - 1])) by {
            if hi > 0 {
                assert(t[hi - 1] == s[hi - 1]);
            }
        }
        lemma_trim_back_take(t, hi);
        assert(t.take(hi) =~= s.take(hi));
    }
}

/// Whether trimming removes this byte at the ends.
fn space_byte(b: u8) -> (r: bool)
    ensures
        r == is_space(b),
{
    b == 32 || (9 <= b && b <= 13)
}

/// Value of one hexadecimal digit byte, or nothing.
fn hex_digit(b: u8) -> (v: Option<u8>)
    ensures
        v is Some <==> hex_digit_val(b) >= 0,
        v is Some ==> v == Some(hex_digit_val(b) as u8),
{
    if 48 <= b && b <= 57 {
        Some(b - 48)
    } else if 97 <= b && b <= 102 {
        Some(b - 87)
    } else if 65 <= b && b <= 70 {
        Some(b - 55)
    } else {
        None
    }
}

/// The uppercase hexadecimal digit character of a value below sixteen.
pub open spec fn hex_char(v: int) -> char {
    if v == 0 {
        '0'
    } else if v == 1 {
        '1'
    } else if v == 2 {
        '2'
    } else if v == 3 {
        '3'
    } else if v == 4 {
        '4'
    } else if v == 5 {
        '5'
    } else if v == 6 {
        '6'
    } else if v == 7 {
        '7'
    } else if v == 8 {
        '8'
    } else if v == 9 {
        '9'
    } else if v == 10 {
        'A'
    } else if v == 11 {
        'B'
    } else if v == 12 {
        'C'
    } else if v == 13 {
        'D'
    } else if v == 14 {
        'E'
    } else {
        'F'
    }
}

/// One channel as unpadded uppercase hex: a single digit below sixteen and
/// two digits otherwise.
pub open spec fn hex_channel_chars(v: u8) -> Seq<char> {
    if v < 16 {
        seq![hex_char(v as int)]
    } else {
        seq![hex_char(v as int / 16), hex_char(v as int % 16)]
    }
}

/// The three color channels rendered as unpadded uppercase hex, in order.
pub open spec fn spec_to_hex(c: RGB) -> Seq<char> {
    hex_channel_chars(c.r) + hex_channel_chars(c.g) + hex_channel_chars(c.b)
}

/// The uppercase hexadecimal digit of a value below sixteen.
fn hex_digit_str(v: u8) -> (s: &'static str)
    requires
        v < 16,
    ensures
        s@ =~= seq![hex_char(v as int)],
{
    proof {
        reveal_strlit("0");
        reveal_strlit("1");
        reveal_strlit("2");
        reveal_strlit("3");
        reveal_strlit("4");
        reveal_strlit("5");
        reveal_strlit("6");
        reveal_strlit("7");
        reveal_strlit("8");
        reveal_strlit("9");
        reveal_strlit("A");
        reveal_strlit("B");
        reveal_strlit("C");
        reveal_strlit("D");
        reveal_strlit("E");
        reveal_strlit("F");
    }
    match v {
        0 => "0",
        1 => "1",
        2 => "2",
        3 => "3",
        4 => "4",
        5 => "5",
        6 => "6",
        7 => "7",
        8 => "8",
        9 => "9",
        10 => "A",
        11 => "B",
        12 => "C",
        13 => "D",
        14 => "E",
        _ => "F",
    }
}

/// Append one channel's unpadded hex digits to the string.
fn push_hex_channel(out: &mut String, v: u8)
    ensures
        final(out)@ == old(out)@ + hex_channel_chars(v),
{
    if v < 16 {
        out.append(hex_digit_str(v));
    } else {
        let ghost pre = out@;
        out.append(hex_digit_str(v / 16));
        out.append(hex_digit_str(v % 16));
        proof {
            assert(pre + seq![hex_char(v as int / 16)] + seq![hex_char(v as int % 16)] =~= pre
                + hex_channel_chars(v));
        }
    }
}

impl Default for RGB {
    /// The fully transparent black pixel.
    fn default() -> (c: RGB)
        ensures
            c == (RGB { r: 0, g: 0, b: 0, a: 0 }),
    {
        RGB { r: 0, g: 0, b: 0, a: 0 }
    }
}

/// One palette entry: an output color together with the fixed-point scale and
/// offset that shape its threshold band.
#[derive(Clone, Copy, Debug, PartialEq, Eq, Structural)]
pub struct ColorMapElement {
    pub color: RGB,
    pub scale: i64,
    pub offset: i64,
}

/// Bound on palette coefficients that keeps every threshold product inside
/// `i64`.
pub const COEFF_MAX: i64 = 4294967296;

impl ColorMapElement {
    /// The coefficients are small enough that `t * scale + offset * UNIT`
    /// can never overflow.
    pub open spec fn wf(&self) -> bool {
        &&& -COEFF_MAX <= self.scale <= COEFF_MAX
        &&& -COEFF_MAX <= self.offset <= COEFF_MAX
    }
}

/// Every entry of the palette is well formed.
pub open spec fn map_wf(map: Seq<ColorMapElement>) -> bool {
    forall|i: int| 0 <= i < map.len() ==> (#[trigger] map[i]).wf()
}

/// The default two-entry palette: black then white, both with unit scale and
/// zero offset.
pub fn default_color_map() -> (map: Vec<ColorMapElement>)
    ensures
        map@.len() == 2,
        map@[0] == (ColorMapElement {
            color: RGB { r: 0, g: 0, b: 0, a: 255 },
            scale: UNIT,
            offset: 0,
        }),
        map@[1] == (ColorMapElement {
            color: RGB { r: 255, g: 255, b: 255, a: 255 },
            scale: UNIT,
            offset: 0,
        }),
        map_wf(map@),
{
    let mut map: Vec<ColorMapElement> = Vec::new();
    map.push(ColorMapElement { color: RGB { r: 0, g: 0, b: 0, a: 255 }, scale: UNIT, offset: 0 });
    map.push(
        ColorMapElement { color: RGB { r: 255, g: 255, b: 255, a: 255 }, scale: UNIT, offset: 0 },
    );
    map
}

} // verus!
