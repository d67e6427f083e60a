//! Parsing the media-probe tool's report: the first `Duration: hh:mm:ss.`
//! stamp gives the running time, the first `, WxH [` token gives the frame
//! size. Running the tool is the caller's job; this module turns its text
//! output into numbers, scanning for the leftmost occurrence of each
//! pattern exactly as written here.

use vstd::prelude::*;

verus! {

/// Probed facts about one video file.
#[derive(Debug, Clone, Copy)]
pub struct VideoStats {
    pub height: u32,
    pub width: u32,
    /// In seconds.
    pub duration: u32,
}

/// Why the report could not be read.
#[derive(Debug, Clone, Copy, PartialEq, Eq, Structural)]
pub enum ProbeError {
    /// No duration stamp in the report.
    DurationNotFound,
    /// No frame-size token in the report.
    ResolutionNotFound,
    /// A frame dimension too large to represent.
    DimensionTooLarge,
}

pub open spec fn is_digit(c: char) -> bool {
    '0' <= c && c <= '9'
}

pub open spec fn digit_val(c: char) -> int {
    c as int - 48
}

/// A `Duration: hh:mm:ss.` stamp starting at position `i`.
pub open spec fn duration_match_at(s: Seq<char>, i: int) -> bool {
    &&& 0 <= i
    &&& i + 19 <= s.len()
    &&& s[i] == 'D'
    &&& s[i + 1] == 'u'
    &&& s[i + 2] == 'r'
    &&& s[i + 3] == 'a'
    &&& s[i + 4] == 't'
    &&& s[i + 5] == 'i'
    &&& s[i + 6] == 'o'
    &&& s[i + 7] == 'n'
    &&& s[i + 8] == ':'
    &&& s[i + 9] == ' '
    &&& is_digit(s[i + 10])
    &&& is_digit(s[i + 11])
    &&& s[i + 12] == ':'
    &&& is_digit(s[i + 13])
    &&& is_digit(s[i + 14])
    &&& s[i + 15] == ':'
    &&& is_digit(s[i + 16])
    &&& is_digit(s[i + 17])
    &&& s[i + 18] == '.'
}

/// The stamp's value in whole seconds.
pub open spec fn spec_duration_secs(s: Seq<char>, i: int) -> int {
    let h = digit_val(s[i + 10]) * 10 + digit_val(s[i + 11]);
    let m = digit_val(s[i + 13]) * 10 + digit_val(s[i + 14]);
    let sec = digit_val(s[i + 16]) * 10 + digit_val(s[i + 17]);
    ((h * 60) + m) * 60 + sec
}

/// The leftmost stamp at or after `i`.
pub open spec fn first_duration_from(s: Seq<char>, i: int) -> Option<int>
    decreases s.len() - i,
{
    if !(0 <= i && i + 19 <= s.len()) {
        Option::None
    } else if duration_match_at(s, i) {
        Option::Some(i)
    } else {
        first_duration_from(s, i + 1)
    }
}

/// The end of the digit run starting at `from`.
pub open spec fn scan_digits_end(s: Seq<char>, from: int) -> int
    decreases s.len() - from,
{
    if !(0 <= from && from < s.len()) {
        from
    } else if !is_digit(s[from]) {
        from
    } else {
        scan_digits_end(s, from + 1)
    }
}

/// A `, WxH [` frame-size token starting at position `i`: a comma and a
/// space, a nonempty digit run, an `x`, a second nonempty digit run, a
/// space and an opening bracket.
pub open spec fn res_match_at(s: Seq<char>, i: int) -> bool {
    &&& 0 <= i
    &&& i + 2 <= s.len()
    &&& s[i] == ','
    &&& s[i + 1] == ' '
    &&& {
        let j = scan_digits_end(s, i + 2);
        &&& j > i + 2
        &&& j < s.len()
        &&& s[j] == 'x'
        &&& {
            let k = scan_digits_end(s, j + 1);
            &&& k > j + 1
            &&& k + 2 <= s.len()
            &&& s[k] == ' '
            &&& s[k + 1] == '['
        }
    }
}

/// The leftmost frame-size token at or after `i`.
pub open spec fn first_res_from(s: Seq<char>, i: int) -> Option<int>
    decreases s.len() - i,
{
    if !(0 <= i && i + 2 <= s.len()) {
        Option::None
    } else if res_match_at(s, i) {
        Option::Some(i)
    } else {
        first_res_from(s, i + 1)
    }
}

/// The value of the digit run `s[from..to]`.
pub open spec fn digits_val(s: Seq<char>, from: int, to: int) -> int
    decreases to - from,
{
    if from >= to {
        0
    } else {
        digits_val(s, from, to - 1) * 10 + digit_val(s[to - 1])
    }
}

/// The width of the token at `i`.
pub open spec fn spec_width(s: Seq<char>, i: int) -> int {
    digits_val(s, i + 2, scan_digits_end(s, i + 2))
}

/// The height of the token at `i`.
pub open spec fn spec_height(s: Seq<char>, i: int) -> int {
    let j = scan_digits_end(s, i + 2);
    digits_val(s, j + 1, scan_digits_end(s, j + 1))
}

impl VideoStats {
    /// Reads the probe report: the leftmost duration stamp and the
    /// leftmost frame-size token, each exactly when present; a frame
    /// dimension beyond `u32` is refused.
    pub fn parse(output: &str) -> (r: Result<VideoStats, ProbeError>)
        ensures
            match r {
                Result::Ok(v) => {
                    let s = output@;
                    &&& first_duration_from(s, 0) is Some
                    &&& first_res_from(s, 0) is Some
                    &&& v.duration == spec_duration_secs(s, first_duration_from(s, 0).unwrap())
                    &&& v.width == spec_width(s, first_res_from(s, 0).unwrap())
                    &&& v.height == spec_height(s, first_res_from(s, 0).unwrap())
                },
                Result::Err(e) => {
                    let s = output@;
                    match e {
                        ProbeError::DurationNotFound => first_duration_from(s, 0) is None,
                        ProbeError::ResolutionNotFound => first_duration_from(s, 0) is Some
                            && first_res_from(s, 0) is None,
                        ProbeError::DimensionTooLarge => first_duration_from(s, 0) is Some
                            && first_res_from(s, 0) is Some && {
                            let i = first_res_from(s, 0).unwrap();
                            spec_width(s, i) > u32::MAX || spec_height(s, i) > u32::MAX
                        },
                    }
                },
            },
    {
        let duration = match find_duration(output) {
            Option::Some(d) => d,
            Option::None => {
                return Result::Err(ProbeError::DurationNotFound);
            },
        };
        match find_resolution(output) {
            ResolutionScan::NotFound => Result::Err(ProbeError::ResolutionNotFound),
            ResolutionScan::TooLarge => Result::Err(ProbeError::DimensionTooLarge),
            ResolutionScan::Found(width, height) => Result::Ok(
                VideoStats { height, width, duration },
            ),
        }
    }
}

/// One scanning step keeps the leftmost stamp unchanged.
proof fn lemma_duration_step(s: Seq<char>, i: int)
    requires
        0 <= i,
        i + 19 <= s.len(),
        !duration_match_at(s, i),
    ensures
        first_duration_from(s, i) == first_duration_from(s, i + 1),
{
}

fn ch_digit(c: char) -> (r: bool)
    ensures
        r == is_digit(c),
{
    '0' <= c && c <= '9'
}

/// The leftmost duration stamp's value in seconds, when the report has one.
fn find_duration(s: &str) -> (r: Option<u32>)
    ensures
        match r {
            Option::Some(v) => first_duration_from(s@, 0) is Some && v == spec_duration_secs(
                s@,
                first_duration_from(s@, 0).unwrap(),
            ),
            Option::None => first_duration_from(s@, 0) is None,
        },
{
    let n = s.unicode_len();
    if n < 19 {
        return Option::None;
    }
    let mut i: usize = 0;
    while i <= n - 19
        invariant
            19 <= n,
            i <= n - 19 + 1,
            n == s@.len(),
            first_duration_from(s@, 0) == first_duration_from(s@, i as int),
        decreases n - i,
    {
        if duration_match(s, i, n) {
            let h = digit_at(s, i + 10) * 10 + digit_at(s, i + 11);
            let m = digit_at(s, i + 13) * 10 + digit_at(s, i + 14);
            let sec = digit_at(s, i + 16) * 10 + digit_at(s, i + 17);
            return Option::Some(((h * 60) + m) * 60 + sec);
        }
        proof {
            lemma_duration_step(s@, i as int);
        }
        i += 1;
    }
    Option::None
}

/// Whether the stamp pattern matches at `i`.
fn duration_match(s: &str, i: usize, n: usize) -> (r: bool)
    requires
        n == s@.len(),
        i + 19 <= n,
    ensures
        r == duration_match_at(s@, i as int),
{
    s.get_char(i) == 'D' && s.get_char(i + 1) == 'u' && s.get_char(i + 2) == 'r' && s.get_char(
        i + 3,
    ) == 'a' && s.get_char(i + 4) == 't' && s.get_char(i + 5) == 'i' && s.get_char(i + 6) == 'o'
        && s.get_char(i + 7) == 'n' && s.get_char(i + 8) == ':' && s.get_char(i + 9) == ' '
        && ch_digit(s.get_char(i + 10)) && ch_digit(s.get_char(i + 11)) && s.get_char(i + 12) == ':'
        && ch_digit(s.get_char(i + 13)) && ch_digit(s.get_char(i + 14)) && s.get_char(i + 15) == ':'
        && ch_digit(s.get_char(i + 16)) && ch_digit(s.get_char(i + 17)) && s.get_char(i + 18) == '.'
}

/// The value of the digit at position `p`.
fn digit_at(s: &str, p: usize) -> (d: u32)
    requires
        p < s@.len(),
        is_digit(s@[p as int]),
    ensures
        d == digit_val(s@[p as int]),
        d <= 9,
{
    (s.get_char(p) as u32) - 48
}

enum ResolutionScan {
    NotFound,
    TooLarge,
    Found(u32, u32),
}

/// One scanning step keeps the leftmost frame-size token unchanged.
proof fn lemma_res_step(s: Seq<char>, i: int)
    requires
        0 <= i,
        i + 2 <= s.len(),
        !res_match_at(s, i),
    ensures
        first_res_from(s, i) == first_res_from(s, i + 1),
{
}

/// The end of the digit run starting at `from`.
fn digit_run_end(s: &str, from: usize, n: usize) -> (j: usize)
    requires
        n == s@.len(),
        from <= n,
    ensures
        from <= j <= n,
        j == scan_digits_end(s@, from as int),
        forall|t: int| from <= t < j ==> is_digit(#[trigger] s@[t]),
{
    let mut j = from;
    while j < n && ch_digit(s.get_char(j))
        invariant
            from <= j <= n,
            n == s@.len(),
            scan_digits_end(s@, from as int) == scan_digits_end(s@, j as int),
            forall|t: int| from <= t < j ==> is_digit(s@[t]),
        decreases n - j,
    {
        j += 1;
    }
    j
}

/// The leftmost frame-size token's dimensions, when the report has one.
fn find_resolution(s: &str) -> (r: ResolutionScan)
    ensures
        match r {
            ResolutionScan::NotFound => first_res_from(s@, 0) is None,
            ResolutionScan::TooLarge => first_res_from(s@, 0) is Some && {
                let i = first_res_from(s@, 0).unwrap();
                spec_width(s@, i) > u32::MAX || spec_height(s@, i) > u32::MAX
            },
            ResolutionScan::Found(w, h) => first_res_from(s@, 0) is Some && {
                let i = first_res_from(s@, 0).unwrap();
                w == spec_width(s@, i) && h == spec_height(s@, i)
            },
        },
{
    let n = s.unicode_len();
    if n < 2 {
        return ResolutionScan::NotFound;
    }
    let mut i: usize = 0;
    while i <= n - 2
        invariant
            2 <= n,
            i <= n - 2 + 1,
            n == s@.len(),
            first_res_from(s@, 0) == first_res_from(s@, i as int),
        decreases n - i,
    {
        if s.get_char(i) == ',' && s.get_char(i + 1) == ' ' {
            let j = digit_run_end(s, i + 2, n);
            if j > i + 2 && j < n && s.get_char(j) == 'x' {
                let k = digit_run_end(s, j + 1, n);
                if k > j + 1 && k <= n - 2 && s.get_char(k) == ' ' && s.get_char(k + 1) == '[' {
                    proof {
                        assert(res_match_at(s@, i as int));
                        assert(first_res_from(s@, i as int) == Option::Some(i as int));
                    }
                    let width = match parse_digits(s, i + 2, j) {
                        Option::Some(v) => v,
                        Option::None => {
                            return ResolutionScan::TooLarge;
                        },
                    };
                    let height = match parse_digits(s, j + 1, k) {
                        Option::Some(v) => v,
                        Option::None => {
                            return ResolutionScan::TooLarge;
                        },
                    };
                    return ResolutionScan::Found(width, height);
                }
            }
        }
        proof {
            assert(!res_match_at(s@, i as int));
            lemma_res_step(s@, i as int);
        }
        i += 1;
    }
    ResolutionScan::NotFound
}

/// Longer digit runs never have smaller values.
proof fn lemma_digits_val_mono(s: Seq<char>, from: int, p: int, to: int)
    requires
        from <= p <= to <= s.len(),
        forall|t: int| from <= t < to ==> is_digit(#[trigger] s[t]),
    ensures
        digits_val(s, from, to) >= digits_val(s, from, p),
        digits_val(s, from, p) >= 0,
    decreases to - p,
{
    if p == to {
        lemma_digits_val_nonneg(s, from, p);
    } else {
        lemma_digits_val_mono(s, from, p, to - 1);
        lemma_digits_val_nonneg(s, from, to - 1);
    }
}

proof fn lemma_digits_val_nonneg(s: Seq<char>, from: int, to: int)
    requires
        from <= to <= s.len(),
        forall|t: int| from <= t < to ==> is_digit(#[trigger] s[t]),
    ensures
        digits_val(s, from, to) >= 0,
    decreases to - from,
{
    if from < to {
        lemma_digits_val_nonneg(s, from, to - 1);
    }
}

/// Reads the digit run `s[from..to]` as a number, refusing one beyond
/// `u32`.
fn parse_digits(s: &str, from: usize, to: usize) -> (r: Option<u32>)
    requires
        from <= to <= s@.len(),
        forall|t: int| from <= t < to ==> is_digit(#[trigger] s@[t]),
    ensures
        match r {
            Option::Some(v) => v == digits_val(s@, from as int, to as int),
            Option::None => digits_val(s@, from as int, to as int) > u32::MAX,
        },
{
    let mut acc: u32 = 0;
    let mut p = from;
    while p < to
        invariant
            from <= p <= to <= s@.len(),
            forall|t: int| from <= t < to ==> is_digit(#[trigger] s@[t]),
            acc == digits_val(s@, from as int, p as int),
        decreases to - p,
    {
        let d = digit_at(s, p);
        if acc > (u32::MAX - d) / 10 {
            proof {
                assert(digits_val(s@, from as int, p + 1) == acc * 10 + d);
                assert(acc * 10 + d > u32::MAX) by (nonlinear_arith)
                    requires
                        acc > (u32::MAX - d) / 10,
                        d <= 9,
                        acc <= u32::MAX,
                ;
                lemma_digits_val_mono(s@, from as int, p + 1, to as int);
            }
            return Option::None;
        }
        proof {
            assert(acc * 10 + d <= u32::MAX) by (nonlinear_arith)
                requires
                    acc <= (u32::MAX - d) / 10,
                    d <= 9,
            ;
        }
        acc = acc * 10 + d;
        p += 1;
    }
    Option::Some(acc)
}

} // verus!
