//! Human-readable progress strings: durations as `m min s.ss sec` and file
//! sizes as tenths of kilobytes or megabytes. All arithmetic is integer
//! arithmetic over milliseconds and bytes, with rounding to the displayed
//! precision spelled out in the specs.

use vstd::prelude::*;

verus! {

pub open spec fn spec_digit_char(d: int) -> char {
    if d == 0 {
        '0'
    } else if d == 1 {
        '1'
    } else if d == 2 {
        '2'
    } else if d == 3 {
        '3'
    } else if d == 4 {
        '4'
    } else if d == 5 {
        '5'
    } else if d == 6 {
        '6'
    } else if d == 7 {
        '7'
    } else if d == 8 {
        '8'
    } else {
        '9'
    }
}

/// The decimal digits of `n`, most significant first.
pub open spec fn spec_digits(n: nat) -> Seq<char>
    decreases n,
{
    if n < 10 {
        seq![spec_digit_char(n as int)]
    } else {
        spec_digits(n / 10).push(spec_digit_char((n % 10) as int))
    }
}

/// Relies on String::push: appends exactly one character.
#[verifier::external_body]
fn push_char(s: &mut String, c: char)
    ensures
        final (s)@ == old(s)@.push(c),
{
    s.push(c);
}

fn digit_char(d: u64) -> (c: char)
    requires
        d < 10,
    ensures
        c == spec_digit_char(d as int),
{
    match d {
        0 => '0',
        1 => '1',
        2 => '2',
        3 => '3',
        4 => '4',
        5 => '5',
        6 => '6',
        7 => '7',
        8 => '8',
        _ => '9',
    }
}

/// Appends the decimal digits of `n`.
fn push_u64(s: &mut String, n: u64)
    ensures
        final (s)@ == old(s)@ + spec_digits(n as nat),
    decreases n,
{
    if n >= 10 {
        push_u64(s, n / 10);
    }
    let ghost mid = s@;
    push_char(s, digit_char(n % 10));
    proof {
        if n < 10 {
            assert(old(s)@ + spec_digits(n as nat) =~= old(s)@.push(
                spec_digit_char((n % 10) as int),
            ));
        } else {
            assert(old(s)@ + spec_digits(n as nat) =~= (old(s)@ + spec_digits(
                (n / 10) as nat,
            )).push(spec_digit_char((n % 10) as int)));
        }
    }
}

/// A duration in milliseconds as `m min s.cc sec`: whole minutes, then the
/// remaining seconds with two decimals, the centiseconds rounded half up.
pub open spec fn spec_duration_text(total_millis: u64) -> Seq<char> {
    let minutes = total_millis / 60000;
    let cs = ((total_millis % 60000) + 5) / 10;
    spec_digits(minutes as nat) + " min "@ + spec_digits((cs / 100) as nat) + "."@ + seq![
        spec_digit_char((cs / 10 % 10) as int),
        spec_digit_char((cs % 10) as int),
    ] + " sec"@
}

pub fn format_duration(total_millis: u64) -> (r: String)
    ensures
        r@ == spec_duration_text(total_millis),
{
    let minutes = total_millis / 60000;
    let cs = ((total_millis % 60000) + 5) / 10;
    let mut r = String::new();
    push_u64(&mut r, minutes);
    r.append(" min ");
    push_u64(&mut r, cs / 100);
    r.append(".");
    push_char(&mut r, digit_char(cs / 10 % 10));
    push_char(&mut r, digit_char(cs % 10));
    r.append(" sec");
    proof {
        assert(r@ =~= spec_duration_text(total_millis));
    }
    r
}

/// A size in bytes as tenths of kilobytes below 990 kB, else tenths of
/// megabytes, rounded half up to the displayed tenth.
pub open spec fn spec_filesize_text(size: u64) -> Seq<char> {
    if size < 990 * 1024 {
        let t = (size / 1024) * 10 + ((size % 1024) * 10 + 512) / 1024;
        spec_digits((t / 10) as nat) + "."@ + seq![spec_digit_char((t % 10) as int)] + "kB"@
    } else {
        let t = (size / 1048576) * 10 + ((size % 1048576) * 10 + 524288) / 1048576;
        spec_digits((t / 10) as nat) + "."@ + seq![spec_digit_char((t % 10) as int)] + "MB"@
    }
}

pub fn format_filesize(size: u64) -> (r: String)
    ensures
        r@ == spec_filesize_text(size),
{
    let mut r = String::new();
    if size < 990 * 1024 {
        let t = (size / 1024) * 10 + ((size % 1024) * 10 + 512) / 1024;
        push_u64(&mut r, t / 10);
        r.append(".");
        push_char(&mut r, digit_char(t % 10));
        r.append("kB");
    } else {
        let t = (size / 1048576) * 10 + ((size % 1048576) * 10 + 524288) / 1048576;
        push_u64(&mut r, t / 10);
        r.append(".");
        push_char(&mut r, digit_char(t % 10));
        r.append("MB");
    }
    proof {
        assert(r@ =~= spec_filesize_text(size));
    }
    r
}

} // verus!
