//! Number rendering for reports: decimal strings, scaled human-readable
//! sizes and counts, durations, and identity bytes.
//!
//! All scaling is integer arithmetic with the fraction kept in hundredths and
//! truncated toward zero; what each function returns is pinned, character for
//! character, by a specification function.

use vstd::prelude::*;

verus! {

/// The text that stands for a byte sequence under lossy decoding.  The
/// result depends on the bytes alone.
pub uninterp spec fn lossy_chars(b: Seq<u8>) -> Seq<char>;

/// Relies on `String::from_utf8_lossy`: the text is a function of the bytes
/// alone, and well-formed text comes through unchanged, so bytes below 128
/// map to their own characters one for one.
#[verifier::external_body]
pub fn bytes_to_string_lossy(b: &Vec<u8>) -> (r: String)
    ensures
        r@ == lossy_chars(b@),
        (forall|k: int| 0 <= k < b@.len() ==> b@[k] < 128) ==> r@ == b@.map_values(
            |x: u8| x as char,
        ),
{
    String::from_utf8_lossy(b.as_slice()).into_owned()
}

/// The character of one decimal digit value.
pub open spec fn spec_digit_char(d: int) -> char {
    if d == 0 {
        '0'
    } else if d == 1 {
        '1'
    } else if d == 2 {
        '2'
    } else if d == 3 {
        '3'
    } else if d == 4 {
        '4'
    } else if d == 5 {
        '5'
    } else if d == 6 {
        '6'
    } else if d == 7 {
        '7'
    } else if d == 8 {
        '8'
    } else {
        '9'
    }
}

/// The decimal digits of a number, most significant first.
pub open spec fn spec_dec_digits(n: nat) -> Seq<char>
    decreases n,
{
    if n < 10 {
        seq![spec_digit_char(n as int)]
    } else {
        spec_dec_digits(n / 10).push(spec_digit_char((n % 10) as int))
    }
}

/// One decimal digit as text.
fn digit_str(d: u64) -> (r: &'static str)
    requires
        d < 10,
    ensures
        r@ == seq![spec_digit_char(d as int)],
{
    if d == 0 {
        proof {
            reveal_strlit("0");
            assert("0"@ =~= seq![spec_digit_char(0)]);
        }
        "0"
    } else if d == 1 {
        proof {
            reveal_strlit("1");
            assert("1"@ =~= seq![spec_digit_char(1)]);
        }
        "1"
    } else if d == 2 {
        proof {
            reveal_strlit("2");
            assert("2"@ =~= seq![spec_digit_char(2)]);
        }
        "2"
    } else if d == 3 {
        proof {
            reveal_strlit("3");
            assert("3"@ =~= seq![spec_digit_char(3)]);
        }
        "3"
    } else if d == 4 {
        proof {
            reveal_strlit("4");
            assert("4"@ =~= seq![spec_digit_char(4)]);
        }
        "4"
    } else if d == 5 {
        proof {
            reveal_strlit("5");
            assert("5"@ =~= seq![spec_digit_char(5)]);
        }
        "5"
    } else if d == 6 {
        proof {
            reveal_strlit("6");
            assert("6"@ =~= seq![spec_digit_char(6)]);
        }
        "6"
    } else if d == 7 {
        proof {
            reveal_strlit("7");
            assert("7"@ =~= seq![spec_digit_char(7)]);
        }
        "7"
    } else if d == 8 {
        proof {
            reveal_strlit("8");
            assert("8"@ =~= seq![spec_digit_char(8)]);
        }
        "8"
    } else {
        proof {
            reveal_strlit("9");
            assert("9"@ =~= seq![spec_digit_char(9)]);
        }
        "9"
    }
}

/// A number as decimal text.
pub fn u64_to_string(n: u64) -> (r: String)
    ensures
        r@ == spec_dec_digits(n as nat),
    decreases n,
{
    if n < 10 {
        String::from_str(digit_str(n))
    } else {
        let mut s = u64_to_string(n / 10);
        s.append(digit_str(n % 10));
        proof {
            assert(s@ =~= spec_dec_digits(n as nat));
        }
        s
    }
}

/// A scaled value, kept in hundredths, as text: three or more integer digits
/// stand alone, two take one decimal place, one takes two.
pub open spec fn spec_fixed100(v100: nat) -> Seq<char> {
    let int_part = v100 / 100;
    if int_part >= 100 {
        spec_dec_digits(int_part)
    } else if int_part >= 10 {
        spec_dec_digits(int_part) + seq!['.', spec_digit_char(((v100 / 10) % 10) as int)]
    } else {
        spec_dec_digits(int_part) + seq![
            '.',
            spec_digit_char(((v100 / 10) % 10) as int),
            spec_digit_char((v100 % 10) as int),
        ]
    }
}

/// Render a value kept in hundredths.
pub fn fixed100(v100: u64) -> (r: String)
    ensures
        r@ == spec_fixed100(v100 as nat),
{
    let int_part = v100 / 100;
    let mut s = u64_to_string(int_part);
    if int_part >= 100 {
        s
    } else if int_part >= 10 {
        proof {
            reveal_strlit(".");
        }
        s.append(".");
        s.append(digit_str((v100 / 10) % 10));
        proof {
            assert(s@ =~= spec_fixed100(v100 as nat));
        }
        s
    } else {
        proof {
            reveal_strlit(".");
        }
        s.append(".");
        s.append(digit_str((v100 / 10) % 10));
        s.append(digit_str(v100 % 10));
        proof {
            assert(s@ =~= spec_fixed100(v100 as nat));
        }
        s
    }
}

/// The scale step of a byte count: how many factors of 1024 bring it under
/// 1024, capped at the largest named unit.
pub open spec fn spec_byte_scale(bytes: u64) -> int {
    if bytes < 0x400 {
        0
    } else if bytes < 0x100000 {
        1
    } else if bytes < 0x40000000 {
        2
    } else if bytes < 0x10000000000 {
        3
    } else if bytes < 0x4000000000000 {
        4
    } else {
        5
    }
}

/// 1024 to the `k`th power, for the named units.
pub open spec fn spec_pow1024(k: int) -> nat {
    if k <= 0 {
        1
    } else if k == 1 {
        0x400
    } else if k == 2 {
        0x100000
    } else if k == 3 {
        0x40000000
    } else if k == 4 {
        0x10000000000
    } else {
        0x4000000000000
    }
}

/// The unit letter of a byte scale step.
pub open spec fn spec_byte_unit(k: int) -> Seq<char> {
    if k <= 0 {
        seq!['B']
    } else if k == 1 {
        seq!['K']
    } else if k == 2 {
        seq!['M']
    } else if k == 3 {
        seq!['G']
    } else if k == 4 {
        seq!['T']
    } else {
        seq!['P']
    }
}

/// A byte count as human-readable text: scaled into hundredths of its unit
/// and truncated, with the unit letter appended; zero is plain.
pub open spec fn spec_fmt_bytes_human(bytes: u64) -> Seq<char> {
    if bytes == 0 {
        seq!['0', 'B']
    } else {
        let k = spec_byte_scale(bytes);
        spec_fixed100((bytes * 100) as nat / spec_pow1024(k)) + spec_byte_unit(k)
    }
}

/// Render a byte count with a binary-unit suffix.
pub fn fmt_bytes_human(bytes: u64) -> (r: String)
    ensures
        r@ == spec_fmt_bytes_human(bytes),
{
    if bytes == 0 {
        proof {
            reveal_strlit("0B");
            assert("0B"@ =~= seq!['0', 'B']);
        }
        return String::from_str("0B");
    }
    let (divisor, unit): (u64, &'static str) = if bytes < 0x400 {
        proof {
            reveal_strlit("B");
            assert("B"@ =~= spec_byte_unit(0));
        }
        (1, "B")
    } else if bytes < 0x100000 {
        proof {
            reveal_strlit("K");
            assert("K"@ =~= spec_byte_unit(1));
        }
        (0x400, "K")
    } else if bytes < 0x40000000 {
        proof {
            reveal_strlit("M");
            assert("M"@ =~= spec_byte_unit(2));
        }
        (0x100000, "M")
    } else if bytes < 0x10000000000 {
        proof {
            reveal_strlit("G");
            assert("G"@ =~= spec_byte_unit(3));
        }
        (0x40000000, "G")
    } else if bytes < 0x4000000000000 {
        proof {
            reveal_strlit("T");
            assert("T"@ =~= spec_byte_unit(4));
        }
        (0x10000000000, "T")
    } else {
        proof {
            reveal_strlit("P");
            assert("P"@ =~= spec_byte_unit(5));
        }
        (0x4000000000000, "P")
    };
    let v100 = ((bytes as u128) * 100 / (divisor as u128)) as u64;
    let mut s = fixed100(v100);
    s.append(unit);
    s
}

/// The scale step of a plain count: how many factors of 1000 bring it under
/// 1000, capped at the largest named unit.
pub open spec fn spec_num_scale(n: u64) -> int {
    if n < 1000 {
        0
    } else if n < 1000000 {
        1
    } else if n < 1000000000 {
        2
    } else if n < 1000000000000 {
        3
    } else {
        4
    }
}

/// 1000 to the `k`th power, for the named units.
pub open spec fn spec_pow1000(k: int) -> nat {
    if k <= 0 {
        1
    } else if k == 1 {
        1000
    } else if k == 2 {
        1000000
    } else if k == 3 {
        1000000000
    } else {
        1000000000000
    }
}

/// The unit letter of a count scale step; none for a plain count.
pub open spec fn spec_num_unit(k: int) -> Seq<char> {
    if k <= 1 {
        seq!['K']
    } else if k == 2 {
        seq!['M']
    } else if k == 3 {
        seq!['G']
    } else {
        seq!['T']
    }
}

/// A count as human-readable text: plain decimal under a thousand, scaled
/// into hundredths of its unit above.
pub open spec fn spec_fmt_num_human(n: u64) -> Seq<char> {
    let k = spec_num_scale(n);
    if k == 0 {
        spec_dec_digits(n as nat)
    } else {
        spec_fixed100((n * 100) as nat / spec_pow1000(k)) + spec_num_unit(k)
    }
}

/// Render a count with a decimal-unit suffix.
pub fn fmt_num_human(n: u64) -> (r: String)
    ensures
        r@ == spec_fmt_num_human(n),
{
    if n < 1000 {
        return u64_to_string(n);
    }
    let (divisor, unit): (u64, &'static str) = if n < 1000000 {
        proof {
            reveal_strlit("K");
            assert("K"@ =~= spec_num_unit(1));
        }
        (1000, "K")
    } else if n < 1000000000 {
        proof {
            reveal_strlit("M");
            assert("M"@ =~= spec_num_unit(2));
        }
        (1000000, "M")
    } else if n < 1000000000000 {
        proof {
            reveal_strlit("G");
            assert("G"@ =~= spec_num_unit(3));
        }
        (1000000000, "G")
    } else {
        proof {
            reveal_strlit("T");
            assert("T"@ =~= spec_num_unit(4));
        }
        (1000000000000, "T")
    };
    let v100 = ((n as u128) * 100 / (divisor as u128)) as u64;
    let mut s = fixed100(v100);
    s.append(unit);
    s
}

/// What a sector count renders as: its byte count, human-readable or plain.
pub open spec fn spec_fmt_size(sectors: u64, human_readable: bool) -> Seq<char> {
    let bytes = sectors << 9u64;
    if human_readable {
        spec_fmt_bytes_human(bytes)
    } else {
        spec_dec_digits(bytes as nat)
    }
}

/// Append a sector count, as bytes, to `out`.
pub fn fmt_size(out: &mut String, sectors: u64, human_readable: bool)
    ensures
        final(out)@ == old(out)@ + spec_fmt_size(sectors, human_readable),
{
    let bytes = sectors << 9u64;
    if human_readable {
        let s = fmt_bytes_human(bytes);
        out.append(s.as_str());
    } else {
        let s = u64_to_string(bytes);
        out.append(s.as_str());
    }
}

/// Append a byte count to `out`, human-readable or plain.
pub fn fmt_size_bytes(out: &mut String, bytes: u64, human_readable: bool)
    ensures
        final(out)@ == old(out)@ + if human_readable {
            spec_fmt_bytes_human(bytes)
        } else {
            spec_dec_digits(bytes as nat)
        },
{
    if human_readable {
        let s = fmt_bytes_human(bytes);
        out.append(s.as_str());
    } else {
        let s = u64_to_string(bytes);
        out.append(s.as_str());
    }
}

/// A byte count as text, human-readable or plain.
pub fn fmt_bytes(bytes: u64, human_readable: bool) -> (r: String)
    ensures
        r@ == if human_readable {
            spec_fmt_bytes_human(bytes)
        } else {
            spec_dec_digits(bytes as nat)
        },
{
    if human_readable {
        fmt_bytes_human(bytes)
    } else {
        u64_to_string(bytes)
    }
}

/// The counter flag marking a counter's values as sector counts.
pub const COUNTER_TYPE_SECTORS: u8 = 2;

/// Whether a counter's flags mark it as sector-valued.
pub fn is_sectors(flags: u8) -> (r: bool)
    ensures
        r == (flags == COUNTER_TYPE_SECTORS),
{
    flags == COUNTER_TYPE_SECTORS
}

/// What a counter value renders as: sector-valued counters as bytes; others
/// plain, or scaled once they reach five digits.
pub open spec fn spec_fmt_counter(val: u64, sectors: bool, human_readable: bool) -> Seq<char> {
    if sectors {
        let bytes = val << 9u64;
        if human_readable {
            spec_fmt_bytes_human(bytes)
        } else {
            spec_dec_digits(bytes as nat)
        }
    } else if human_readable && val >= 10000 {
        spec_fmt_num_human(val)
    } else {
        spec_dec_digits(val as nat)
    }
}

/// Render one counter value.
pub fn fmt_counter(val: u64, sectors: bool, human_readable: bool) -> (r: String)
    ensures
        r@ == spec_fmt_counter(val, sectors, human_readable),
{
    if sectors {
        fmt_bytes(val << 9u64, human_readable)
    } else if human_readable && val >= 10000 {
        fmt_num_human(val)
    } else {
        u64_to_string(val)
    }
}

/// What a nanosecond duration renders as: the largest time unit that leaves
/// at least two integer digits, truncated; zero is plain.
pub open spec fn spec_fmt_duration(ns: u64) -> Seq<char> {
    if ns == 0 {
        seq!['0']
    } else if ns >= 10000000000 {
        spec_dec_digits((ns as nat) / 1000000000) + seq!['s']
    } else if ns >= 10000000 {
        spec_dec_digits((ns as nat) / 1000000) + seq!['m', 's']
    } else if ns >= 10000 {
        spec_dec_digits((ns as nat) / 1000) + seq!['u', 's']
    } else {
        spec_dec_digits(ns as nat) + seq!['n', 's']
    }
}

/// Render a duration in nanoseconds.
pub fn fmt_duration(ns: u64) -> (r: String)
    ensures
        r@ == spec_fmt_duration(ns),
{
    if ns == 0 {
        proof {
            reveal_strlit("0");
            assert("0"@ =~= seq!['0']);
        }
        String::from_str("0")
    } else if ns >= 10000000000 {
        proof {
            reveal_strlit("s");
            assert("s"@ =~= seq!['s']);
        }
        let mut s = u64_to_string(ns / 1000000000);
        s.append("s");
        s
    } else if ns >= 10000000 {
        proof {
            reveal_strlit("ms");
            assert("ms"@ =~= seq!['m', 's']);
        }
        let mut s = u64_to_string(ns / 1000000);
        s.append("ms");
        s
    } else if ns >= 10000 {
        proof {
            reveal_strlit("us");
            assert("us"@ =~= seq!['u', 's']);
        }
        let mut s = u64_to_string(ns / 1000);
        s.append("us");
        s
    } else {
        proof {
            reveal_strlit("ns");
            assert("ns"@ =~= seq!['n', 's']);
        }
        let mut s = u64_to_string(ns);
        s.append("ns");
        s
    }
}

/// The character of one hexadecimal digit value.
pub open spec fn spec_hex_char(d: int) -> char {
    if d < 10 {
        spec_digit_char(d)
    } else if d == 10 {
        'a'
    } else if d == 11 {
        'b'
    } else if d == 12 {
        'c'
    } else if d == 13 {
        'd'
    } else if d == 14 {
        'e'
    } else {
        'f'
    }
}

/// One byte as two hexadecimal characters.
pub open spec fn spec_hex_byte(b: u8) -> Seq<char> {
    seq![spec_hex_char(b as int / 16), spec_hex_char(b as int % 16)]
}

/// One hexadecimal digit as text.
fn hex_digit_str(d: u64) -> (r: &'static str)
    requires
        d < 16,
    ensures
        r@ == seq![spec_hex_char(d as int)],
{
    if d < 10 {
        digit_str(d)
    } else if d == 10 {
        proof {
            reveal_strlit("a");
            assert("a"@ =~= seq![spec_hex_char(10)]);
        }
        "a"
    } else if d == 11 {
        proof {
            reveal_strlit("b");
            assert("b"@ =~= seq![spec_hex_char(11)]);
        }
        "b"
    } else if d == 12 {
        proof {
            reveal_strlit("c");
            assert("c"@ =~= seq![spec_hex_char(12)]);
        }
        "c"
    } else if d == 13 {
        proof {
            reveal_strlit("d");
            assert("d"@ =~= seq![spec_hex_char(13)]);
        }
        "d"
    } else if d == 14 {
        proof {
            reveal_strlit("e");
            assert("e"@ =~= seq![spec_hex_char(14)]);
        }
        "e"
    } else {
        proof {
            reveal_strlit("f");
            assert("f"@ =~= seq![spec_hex_char(15)]);
        }
        "f"
    }
}

/// Append one byte as two hexadecimal characters.
fn append_hex_byte(out: &mut String, b: u8)
    ensures
        final(out)@ == old(out)@ + spec_hex_byte(b),
{
    out.append(hex_digit_str((b / 16) as u64));
    out.append(hex_digit_str((b % 16) as u64));
    proof {
        assert(out@ =~= old(out)@ + spec_hex_byte(b));
    }
}

/// Sixteen identity bytes in the conventional hyphenated form: groups of
/// four, two, two, two and six bytes.
pub open spec fn spec_fmt_uuid(u: Seq<u8>) -> Seq<char>
    recommends
        u.len() == 16,
{
    spec_hex_byte(u[0]) + spec_hex_byte(u[1]) + spec_hex_byte(u[2]) + spec_hex_byte(u[3]) + seq![
        '-',
    ] + spec_hex_byte(u[4]) + spec_hex_byte(u[5]) + seq!['-'] + spec_hex_byte(u[6]) + spec_hex_byte(
        u[7],
    ) + seq!['-'] + spec_hex_byte(u[8]) + spec_hex_byte(u[9]) + seq!['-'] + spec_hex_byte(u[10])
        + spec_hex_byte(u[11]) + spec_hex_byte(u[12]) + spec_hex_byte(u[13]) + spec_hex_byte(u[14])
        + spec_hex_byte(u[15])
}

/// Render sixteen identity bytes in hyphenated hexadecimal.
pub fn fmt_uuid(uuid: &[u8; 16]) -> (r: String)
    ensures
        r@ == spec_fmt_uuid(uuid@),
{
    proof {
        reveal_strlit("-");
        assert("-"@ =~= seq!['-']);
    }
    let mut s = String::new();
    append_hex_byte(&mut s, uuid[0]);
    append_hex_byte(&mut s, uuid[1]);
    append_hex_byte(&mut s, uuid[2]);
    append_hex_byte(&mut s, uuid[3]);
    s.append("-");
    append_hex_byte(&mut s, uuid[4]);
    append_hex_byte(&mut s, uuid[5]);
    s.append("-");
    append_hex_byte(&mut s, uuid[6]);
    append_hex_byte(&mut s, uuid[7]);
    s.append("-");
    append_hex_byte(&mut s, uuid[8]);
    append_hex_byte(&mut s, uuid[9]);
    s.append("-");
    append_hex_byte(&mut s, uuid[10]);
    append_hex_byte(&mut s, uuid[11]);
    append_hex_byte(&mut s, uuid[12]);
    append_hex_byte(&mut s, uuid[13]);
    append_hex_byte(&mut s, uuid[14]);
    append_hex_byte(&mut s, uuid[15]);
    proof {
        assert(s@ =~= spec_fmt_uuid(uuid@));
    }
    s
}

} // verus!
