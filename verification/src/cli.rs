//! What the command-line tool decides on its own: reading a window handle
//! written in decimal or `0x` hexadecimal, and which audio sources a list
//! of requested sources turns on.
use crate::api::AudioOptions;
use crate::capture::{trim_spec, trim_whitespace};
use vstd::prelude::*;
use vstd::string::StrSliceExecFns;

verus! {

/// Why a window handle was refused.
#[derive(Debug, Clone, Copy, PartialEq, Eq, Structural)]
pub enum HwndParseError {
    /// After a `0x` prefix, not a hexadecimal number that fits.
    InvalidHex,
    /// Not a decimal number that fits.
    Invalid,
}

/// The value of a digit character in a radix up to 36.
pub open spec fn digit_value(c: char, radix: int) -> Option<int> {
    let v = c as int;
    let d = if 48 <= v <= 57 {
        v - 48
    } else if 97 <= v <= 122 {
        v - 87
    } else if 65 <= v <= 90 {
        v - 55
    } else {
        99
    };
    if d < radix {
        Some(d)
    } else {
        None
    }
}

/// The value of a run of digits, most significant first (0 for none).
pub open spec fn digits_value(s: Seq<char>, radix: int) -> Option<int>
    decreases s.len(),
{
    if s.len() == 0 {
        Some(0)
    } else {
        match (digits_value(s.drop_last(), radix), digit_value(s.last(), radix)) {
            (Some(v), Some(d)) => Some(v * radix + d),
            _ => None,
        }
    }
}

/// An integer as Rust's `from_str_radix` reads it: an optional `+` or `-`
/// and at least one digit.
pub open spec fn int_spec(s: Seq<char>, radix: int) -> Option<int> {
    if s.len() == 0 {
        None
    } else if s[0] == '+' || s[0] == '-' {
        if s.len() == 1 {
            None
        } else {
            match digits_value(s.drop_first(), radix) {
                Some(v) => Some(if s[0] == '-' { -v } else { v }),
                None => None,
            }
        }
    } else {
        digits_value(s, radix)
    }
}

/// Whether a value fits in `isize`.
pub open spec fn fits_isize(v: int) -> bool {
    isize::MIN <= v <= isize::MAX
}

/// Whether the trimmed text starts with `0x` or `0X`.
pub open spec fn hex_prefixed(t: Seq<char>) -> bool {
    t.len() >= 2 && t[0] == '0' && (t[1] == 'x' || t[1] == 'X')
}

/// A window handle as the command line takes it: surrounding whitespace
/// ignored, hexadecimal after `0x` or `0X`, else decimal.
pub open spec fn hwnd_spec(text: Seq<char>) -> core::result::Result<isize, HwndParseError> {
    let t = trim_spec(text);
    if hex_prefixed(t) {
        match int_spec(t.skip(2), 16) {
            Some(v) => if fits_isize(v) {
                Ok(v as isize)
            } else {
                Err(HwndParseError::InvalidHex)
            },
            None => Err(HwndParseError::InvalidHex),
        }
    } else {
        match int_spec(t, 10) {
            Some(v) => if fits_isize(v) {
                Ok(v as isize)
            } else {
                Err(HwndParseError::Invalid)
            },
            None => Err(HwndParseError::Invalid),
        }
    }
}

proof fn lemma_digits_prefix_grows(s: Seq<char>, radix: int, i: int, j: int)
    requires
        2 <= radix <= 36,
        0 <= i <= j <= s.len(),
        digits_value(s.subrange(0, i), radix) is Some,
        digits_value(s.subrange(0, j), radix) is Some,
    ensures
        digits_value(s.subrange(0, j), radix)->0 >= digits_value(s.subrange(0, i), radix)->0,
        digits_value(s.subrange(0, i), radix)->0 >= 0,
    decreases j - i,
{
    lemma_digits_nonneg(s.subrange(0, i), radix);
    if j > i {
        assert(s.subrange(0, j).drop_last() =~= s.subrange(0, j - 1));
        lemma_digits_prefix_grows(s, radix, i, j - 1);
        let p = digits_value(s.subrange(0, j - 1), radix)->0;
        assert(p * radix >= p) by (nonlinear_arith)
            requires
                p >= 0,
                radix >= 2,
        ;
    }
}

proof fn lemma_digits_nonneg(s: Seq<char>, radix: int)
    requires
        2 <= radix <= 36,
    ensures
        digits_value(s, radix) matches Some(v) ==> v >= 0,
    decreases s.len(),
{
    if s.len() > 0 {
        lemma_digits_nonneg(s.drop_last(), radix);
        if let Some(p) = digits_value(s.drop_last(), radix) {
            assert(p * radix >= 0) by (nonlinear_arith)
                requires
                    p >= 0,
                    radix >= 2,
            ;
        }
    }
}

/// A failed digit stays failed however many digits follow.
proof fn lemma_digits_none_extends(s: Seq<char>, radix: int, i: int, j: int)
    requires
        0 <= i <= j <= s.len(),
        digits_value(s.subrange(0, i), radix) is None,
    ensures
        digits_value(s.subrange(0, j), radix) is None,
    decreases j - i,
{
    if j > i {
        assert(s.subrange(0, j).drop_last() =~= s.subrange(0, j - 1));
        lemma_digits_none_extends(s, radix, i, j - 1);
    }
}

fn digit_of(c: char, radix: u32) -> (r: Option<u32>)
    requires
        radix <= 36,
    ensures
        r matches Some(d) ==> digit_value(c, radix as int) == Some(d as int),
        r is None ==> digit_value(c, radix as int) is None,
{
    let v = c as u32;
    let d: u32 = if 48 <= v && v <= 57 {
        v - 48
    } else if 97 <= v && v <= 122 {
        v - 87
    } else if 65 <= v && v <= 90 {
        v - 55
    } else {
        99
    };
    if d < radix {
        Some(d)
    } else {
        None
    }
}

/// Reads an integer the way `isize::from_str_radix` does; `None` when the
/// text is not one or does not fit.
fn parse_isize(t: &Vec<char>, radix: u32) -> (r: Option<isize>)
    requires
        2 <= radix <= 36,
    ensures
        r matches Some(v) ==> int_spec(t@, radix as int) == Some(v as int),
        r is None ==> int_spec(t@, radix as int) matches None || (int_spec(t@, radix as int) matches Some(v) && !fits_isize(v)),
{
    let n = t.len();
    if n == 0 {
        return None;
    }
    let neg = t[0] == '-';
    let signed = t[0] == '+' || neg;
    if signed && n == 1 {
        return None;
    }
    let start: usize = if signed { 1 } else { 0 };
    let ghost body = t@.skip(start as int);
    let limit: i128 = if neg { isize::MAX as i128 + 1 } else { isize::MAX as i128 };
    let mut acc: i128 = 0;
    let mut i: usize = start;
    assert(body.subrange(0, 0) =~= Seq::<char>::empty());
    while i < n
        invariant
            n == t@.len(),
            start <= 1,
            start == 1 <==> (t@[0] == '+' || t@[0] == '-'),
            neg <==> t@[0] == '-',
            n > 0,
            start <= i <= n,
            body == t@.skip(start as int),
            body.len() == n - start,
            2 <= radix <= 36,
            0 <= acc <= limit,
            limit == (if neg { isize::MAX as int + 1 } else { isize::MAX as int }),
            digits_value(body.subrange(0, i - start), radix as int) == Some(acc as int),
        decreases n - i,
    {
        let d = match digit_of(t[i], radix) {
            Some(d) => d,
            None => {
                proof {
                    assert(body.subrange(0, i - start + 1).drop_last() =~= body.subrange(0, i - start));
                    assert(body.subrange(0, i - start + 1).last() == t@[i as int]);
                    lemma_digits_none_extends(body, radix as int, i - start + 1, body.len() as int);
                    assert(body.subrange(0, body.len() as int) =~= body);
                    if start == 1 {
                        assert(body =~= t@.drop_first());
                    } else {
                        assert(body =~= t@);
                    }
                }
                return None;
            },
        };
        proof {
            assert(acc * radix + d <= 0x8000_0000_0000_0000 * 36 + 36) by (nonlinear_arith)
                requires
                    0 <= acc <= 0x8000_0000_0000_0000,
                    radix <= 36,
                    d < 36,
            ;
            assert(acc * radix + d >= 0) by (nonlinear_arith)
                requires
                    0 <= acc,
                    radix >= 2,
                    d >= 0,
            ;
        }
        let next = acc * radix as i128 + d as i128;
        proof {
            assert(body.subrange(0, i - start + 1).drop_last() =~= body.subrange(0, i - start));
            assert(body.subrange(0, i - start + 1).last() == t@[i as int]);
        }
        if next > limit {
            proof {
                assert(body.subrange(0, body.len() as int) =~= body);
                if digits_value(body, radix as int) is Some {
                    lemma_digits_prefix_grows(body, radix as int, i - start + 1, body.len() as int);
                }
                if start == 1 {
                    assert(body =~= t@.drop_first());
                } else {
                    assert(body =~= t@);
                }
            }
            return None;
        }
        acc = next;
        i = i + 1;
    }
    assert(body.subrange(0, body.len() as int) =~= body);
    if start == 1 {
        assert(body =~= t@.drop_first());
    } else {
        assert(body =~= t@);
    }
    if neg {
        if acc == isize::MAX as i128 + 1 {
            Some(isize::MIN)
        } else {
            Some(-(acc as isize))
        }
    } else {
        Some(acc as isize)
    }
}

fn chars_vec(text: &String) -> (v: Vec<char>)
    ensures
        v@ == text@,
{
    let s = text.as_str();
    let n = s.unicode_len();
    let mut v: Vec<char> = Vec::new();
    let mut i: usize = 0;
    while i < n
        invariant
            n == s@.len(),
            s@ == text@,
            i <= n,
            v@ == s@.subrange(0, i as int),
        decreases n - i,
    {
        v.push(s.get_char(i));
        i = i + 1;
        assert(v@ =~= s@.subrange(0, i as int));
    }
    assert(v@ =~= s@);
    v
}

/// Reads a window handle: surrounding whitespace ignored, hexadecimal after
/// `0x` or `0X`, else decimal, with an optional sign.
pub fn parse_hwnd(value: &str) -> (r: core::result::Result<isize, HwndParseError>)
    ensures
        r == hwnd_spec(value@),
{
    let trimmed = trim_whitespace(value);
    let t = chars_vec(&trimmed);
    if t.len() >= 2 && t[0] == '0' && (t[1] == 'x' || t[1] == 'X') {
        let mut hex: Vec<char> = Vec::new();
        let mut i: usize = 2;
        while i < t.len()
            invariant
                2 <= i <= t@.len(),
                hex@ == t@.subrange(2, i as int),
            decreases t@.len() - i,
        {
            hex.push(t[i]);
            i = i + 1;
            assert(hex@ =~= t@.subrange(2, i as int));
        }
        assert(hex@ =~= t@.skip(2));
        match parse_isize(&hex, 16) {
            Some(v) => Ok(v),
            None => Err(HwndParseError::InvalidHex),
        }
    } else {
        match parse_isize(&t, 10) {
            Some(v) => Ok(v),
            None => Err(HwndParseError::Invalid),
        }
    }
}

proof fn lemma_push_contains<A>(pre: Seq<A>, x: A, y: A)
    ensures
        pre.push(x).contains(y) == (pre.contains(y) || x == y),
{
    if pre.contains(y) {
        let k = choose|k: int| 0 <= k < pre.len() && pre[k] == y;
        assert(pre.push(x)[k] == y);
    }
    if x == y {
        assert(pre.push(x)[pre.len() as int] == y);
    }
    if pre.push(x).contains(y) {
        let k = choose|k: int| 0 <= k < pre.push(x).len() && pre.push(x)[k] == y;
        if k < pre.len() {
            assert(pre[k] == y);
        }
    }
}

/// An audio source the command line can ask for.
#[derive(Debug, Clone, Copy, PartialEq, Eq, Structural)]
pub enum AudioSource {
    System,
    Mic,
}

/// The audio options for a list of requested sources: each one is on when
/// it is listed.
pub fn audio_from_sources(sources: &Vec<AudioSource>) -> (a: AudioOptions)
    ensures
        a.system == sources@.contains(AudioSource::System),
        a.microphone == sources@.contains(AudioSource::Mic),
{
    let mut system = false;
    let mut microphone = false;
    let mut i: usize = 0;
    while i < sources.len()
        invariant
            i <= sources@.len(),
            system == sources@.subrange(0, i as int).contains(AudioSource::System),
            microphone == sources@.subrange(0, i as int).contains(AudioSource::Mic),
        decreases sources@.len() - i,
    {
        let ghost pre = sources@.subrange(0, i as int);
        assert(sources@.subrange(0, i + 1) =~= pre.push(sources@[i as int]));
        proof {
            lemma_push_contains(pre, sources@[i as int], AudioSource::System);
            lemma_push_contains(pre, sources@[i as int], AudioSource::Mic);
        }
        match sources[i] {
            AudioSource::System => system = true,
            AudioSource::Mic => microphone = true,
        }
        i = i + 1;
    }
    assert(sources@.subrange(0, sources@.len() as int) =~= sources@);
    AudioOptions { system, microphone }
}

} // verus!
