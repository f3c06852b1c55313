//! AIDX identifiers: eight base-36 digits counting the milliseconds since the
//! start of the year 2000, four bytes naming the node that minted the id, and
//! a decimal counter of at least four digits.

use vstd::prelude::*;
use vstd::string::StringSliceAdditionalSpecFns;

verus! {

/// Milliseconds between the Unix epoch and 2000-01-01T00:00:00Z.
pub const TIME2000: i64 = 946684800000;

/// Bytes of the timestamp field.
pub const TIME_LENGTH: usize = 8;

/// Bytes of the node field.
pub const NODE_LENGTH: usize = 4;

/// Least number of digits the counter is written with.
pub const NOISE_LENGTH: usize = 4;

/// The value of an ASCII byte read as a digit, letters in either case
/// counting from ten; 36 for a byte that is no digit in any radix up to 36.
pub open spec fn digit_of(b: u8) -> int {
    if 0x30 <= b <= 0x39 {
        b - 0x30
    } else if 0x61 <= b <= 0x7a {
        b - 0x61 + 10
    } else if 0x41 <= b <= 0x5a {
        b - 0x41 + 10
    } else {
        36
    }
}

/// Every byte of `s` is a digit of the radix.
pub open spec fn all_digits(s: Seq<u8>, radix: int) -> bool {
    forall|i: int| 0 <= i < s.len() ==> digit_of(#[trigger] s[i]) < radix
}

/// The number that the digits `s` denote, most significant digit first.
pub open spec fn number(s: Seq<u8>, radix: int) -> int
    decreases s.len(),
{
    if s.len() == 0 {
        0
    } else {
        number(s.drop_last(), radix) * radix + digit_of(s.last())
    }
}

/// `radix` to the power `n`.
pub open spec fn power(radix: int, n: nat) -> int
    decreases n,
{
    if n == 0 {
        1
    } else {
        power(radix, (n - 1) as nat) * radix
    }
}

/// A run of digits denotes a number from zero up to, not including, the radix
/// to the power of its length.
pub proof fn lemma_number_bounds(s: Seq<u8>, radix: int)
    requires
        1 <= radix <= 36,
        all_digits(s, radix),
    ensures
        0 <= number(s, radix) < power(radix, s.len()),
    decreases s.len(),
{
    if s.len() > 0 {
        let init = s.drop_last();
        assert(all_digits(init, radix)) by {
            assert forall|i: int| 0 <= i < init.len() implies digit_of(#[trigger] init[i])
                < radix by {
                assert(init[i] == s[i]);
            }
        }
        lemma_number_bounds(init, radix);
        let n = number(init, radix);
        let p = power(radix, init.len());
        let d = digit_of(s.last());
        assert(0 <= d < radix);
        assert(0 <= n * radix + d < p * radix) by (nonlinear_arith)
            requires
                0 <= n < p,
                0 <= d < radix,
        ;
    }
}

/// Reading more digits never gives a smaller number.
pub proof fn lemma_number_grows(s: Seq<u8>, radix: int, k: int)
    requires
        1 <= radix <= 36,
        all_digits(s, radix),
        0 <= k <= s.len(),
    ensures
        0 <= number(s.take(k), radix) <= number(s, radix),
    decreases s.len() - k,
{
    if k == s.len() {
        assert(s.take(k) =~= s);
        lemma_number_bounds(s, radix);
    } else {
        lemma_number_grows(s, radix, k + 1);
        let longer = s.take(k + 1);
        assert(longer.drop_last() =~= s.take(k));
        assert(all_digits(s.take(k), radix)) by {
            assert forall|i: int| 0 <= i < k implies digit_of(#[trigger] s.take(k)[i])
                < radix by {
                assert(s.take(k)[i] == s[i]);
            }
        }
        lemma_number_bounds(s.take(k), radix);
        let n = number(s.take(k), radix);
        let d = digit_of(longer.last());
        assert(longer.last() == s[k]);
        assert(0 <= d);
        assert(n <= n * radix + d) by (nonlinear_arith)
            requires
                0 <= n,
                1 <= radix,
                0 <= d,
        ;
    }
}

/// The value of one byte as a digit of the radix, if it is one.
pub fn digit_value(b: u8, radix: u8) -> (r: Option<u8>)
    requires
        radix <= 36,
    ensures
        r == if digit_of(b) < radix {
            Some(digit_of(b) as u8)
        } else {
            None
        },
{
    let d: u8 = if 0x30 <= b && b <= 0x39 {
        b - 0x30
    } else if 0x61 <= b && b <= 0x7a {
        b - 0x61 + 10
    } else if 0x41 <= b && b <= 0x5a {
        b - 0x41 + 10
    } else {
        36
    };
    if d < radix {
        Some(d)
    } else {
        None
    }
}

/// What a run of digits reads as when the result may not exceed `max`.
pub open spec fn bounded_number(s: Seq<u8>, radix: int, max: int) -> Option<int> {
    if all_digits(s, radix) && number(s, radix) <= max {
        Some(number(s, radix))
    } else {
        None
    }
}

/// Reads `bytes[from..to]` as an unsigned number in the given radix. The
/// result is `None` when a byte is no digit of the radix or the number is
/// above `max`.
pub fn parse_digits(bytes: &[u8], from: usize, to: usize, radix: u8, max: u64) -> (r: Option<u64>)
    requires
        from <= to <= bytes@.len(),
        1 <= radix <= 36,
        max <= 0x00ff_ffff_ffff_ffff,
    ensures
        r matches Some(v) ==> bounded_number(bytes@.subrange(from as int, to as int), radix as int, max as int)
            == Some(v as int),
        r is None ==> bounded_number(bytes@.subrange(from as int, to as int), radix as int, max as int)
            is None,
{
    let ghost field = bytes@.subrange(from as int, to as int);
    let mut acc: u64 = 0;
    let mut i: usize = from;
    while i < to
        invariant
            from <= i <= to <= bytes@.len(),
            1 <= radix <= 36,
            max <= 0x00ff_ffff_ffff_ffff,
            field == bytes@.subrange(from as int, to as int),
            all_digits(field.take(i - from), radix as int),
            acc == number(field.take(i - from), radix as int),
            acc <= max,
        decreases to - i,
    {
        let ghost seen = field.take(i - from);
        let ghost next = field.take(i - from + 1);
        proof {
            assert(next.drop_last() =~= seen);
            assert(next.last() == bytes@[i as int]);
        }
        match digit_value(bytes[i], radix) {
            None => {
                proof {
                    assert(field[i - from] == bytes@[i as int]);
                    assert(!all_digits(field, radix as int));
                }
                return None;
            },
            Some(d) => {
                proof {
                    assert(all_digits(next, radix as int)) by {
                        assert forall|j: int| 0 <= j < next.len() implies digit_of(
                            #[trigger] next[j],
                        ) < radix by {
                            if j < next.len() - 1 {
                                assert(next[j] == seen[j]);
                            }
                        }
                    }
                    assert(acc * radix + d <= 0x00ff_ffff_ffff_ffff * 36 + 36) by (nonlinear_arith)
                        requires
                            acc <= 0x00ff_ffff_ffff_ffff,
                            radix <= 36,
                            d <= 36,
                    ;
                }
                let wider: u64 = acc * (radix as u64) + (d as u64);
                if wider > max {
                    proof {
                        if all_digits(field, radix as int) {
                            lemma_number_grows(field, radix as int, i - from + 1);
                        }
                    }
                    return None;
                }
                acc = wider;
                i = i + 1;
            },
        }
    }
    proof {
        assert(field.take(to - from) =~= field);
    }
    Some(acc)
}

/// The character that writes the digit `d`, letters in lower case.
pub open spec fn digit_char(d: int) -> char {
    if d < 10 {
        (0x30 + d) as char
    } else {
        (0x61 + d - 10) as char
    }
}

/// The last `width` digits of `x` in the given radix, most significant digit
/// first, with leading zeros where `x` has fewer digits.
pub open spec fn digits_of(x: nat, radix: nat, width: nat) -> Seq<char>
    decreases width,
{
    if width == 0 {
        Seq::empty()
    } else {
        digits_of(x / radix, radix, (width - 1) as nat).push(digit_char((x % radix) as int))
    }
}

/// How many digits `x` takes in the given radix; zero takes one.
pub open spec fn digit_count(x: nat, radix: nat) -> nat
    decreases x,
    via digit_count_decreases
{
    if radix < 2 || x < radix {
        1
    } else {
        1 + digit_count(x / radix, radix)
    }
}

#[via_fn]
proof fn digit_count_decreases(x: nat, radix: nat) {
    if !(radix < 2 || x < radix) {
        assert(x / radix < x) by (nonlinear_arith)
            requires
                x >= radix,
                radix >= 2,
        ;
    }
}

/// The character for one digit below 36.
pub fn digit_to_char(d: u8) -> (c: char)
    requires
        d < 36,
    ensures
        c == digit_char(d as int),
{
    if d < 10 {
        (0x30 + d) as char
    } else {
        (0x61 + (d - 10)) as char
    }
}

/// Appends the last `width` digits of `x` in the given radix to `out`.
pub fn push_digits(out: &mut String, x: u64, radix: u8, width: usize)
    requires
        2 <= radix <= 36,
    ensures
        final(out)@ == old(out)@ + digits_of(x as nat, radix as nat, width as nat),
    decreases width,
{
    if width > 0 {
        push_digits(out, x / (radix as u64), radix, width - 1);
        let d: u8 = (x % (radix as u64)) as u8;
        out.push(digit_to_char(d));
        assert(final(out)@ =~= old(out)@ + digits_of(x as nat, radix as nat, width as nat));
    } else {
        assert(old(out)@ + digits_of(x as nat, radix as nat, 0) =~= old(out)@);
    }
}

/// Writes the last `width` digits of `x` in the given radix.
pub fn write_digits(x: u64, radix: u8, width: usize) -> (s: String)
    requires
        2 <= radix <= 36,
    ensures
        s@ == digits_of(x as nat, radix as nat, width as nat),
{
    let mut s = String::new();
    push_digits(&mut s, x, radix, width);
    assert(Seq::<char>::empty() + digits_of(x as nat, radix as nat, width as nat) =~= digits_of(
        x as nat,
        radix as nat,
        width as nat,
    ));
    s
}

/// Writes `x` in the given radix with as many digits as it takes.
pub fn write_number(x: u64, radix: u8) -> (s: String)
    requires
        2 <= radix <= 36,
    ensures
        s@ == digits_of(x as nat, radix as nat, digit_count(x as nat, radix as nat)),
    decreases x,
{
    let mut s = if x < radix as u64 {
        assert(digits_of((x / (radix as u64)) as nat, radix as nat, 0) =~= Seq::<char>::empty());
        String::new()
    } else {
        assert(x / (radix as u64) < x) by (nonlinear_arith)
            requires
                x >= radix,
                radix >= 2,
        ;
        write_number(x / (radix as u64), radix)
    };
    let d: u8 = (x % (radix as u64)) as u8;
    s.push(digit_to_char(d));
    s
}

/// A number to be written in base 36.
pub struct Radix36 {
    pub value: u64,
}

impl Radix36 {
    /// Wraps `x`.
    pub fn new(x: u64) -> (r: Radix36)
        ensures
            r.value == x,
    {
        Radix36 { value: x }
    }

    /// What `format` writes for a given width.
    pub open spec fn text(self, width: Option<usize>) -> Seq<char> {
        match width {
            Some(w) => digits_of(self.value as nat, 36, w as nat),
            None => digits_of(self.value as nat, 36, digit_count(self.value as nat, 36)),
        }
    }

    /// Writes the number in base 36 with lower-case letters. With a width it
    /// writes exactly that many digits, the lowest ones, padded with zeros;
    /// without one it writes as many digits as the number takes.
    pub fn format(&self, width: Option<usize>) -> (s: String)
        ensures
            s@ == self.text(width),
    {
        match width {
            Some(w) => write_digits(self.value, 36, w),
            None => write_number(self.value, 36),
        }
    }
}

/// An AIDX identifier.
#[derive(Debug, Clone, Copy, PartialEq, Eq, PartialOrd, Ord, Hash)]
pub struct Aidx {
    /// Milliseconds since the Unix epoch.
    pub timestamp: i64,
    /// The node that minted the id.
    pub node_id: [u8; NODE_LENGTH],
    /// The counter that tells apart ids minted in one millisecond.
    pub counter: u16,
}

/// An AIDX identifier as mathematical values.
pub struct AidxView {
    pub timestamp: int,
    pub node_id: Seq<u8>,
    pub counter: int,
}

impl View for Aidx {
    type V = AidxView;

    open spec fn view(&self) -> AidxView {
        AidxView {
            timestamp: self.timestamp as int,
            node_id: self.node_id@,
            counter: self.counter as int,
        }
    }
}

/// The text was not a valid AIDX identifier.
#[derive(Debug, Clone, Copy)]
pub struct ParseAidxError {
    _priv: (),
}

impl ParseAidxError {
    /// The message of this error.
    pub fn to_string(&self) -> (s: String)
        ensures
            s@ == "invalid aidx"@,
    {
        "invalid aidx".to_owned()
    }
}

/// The timestamp that the first eight bytes of `b` denote: base-36 digits,
/// the first of which may give way to a sign, counted from the year 2000.
pub open spec fn timestamp_of(b: Seq<u8>) -> Option<int>
    recommends
        b.len() >= 8,
{
    let signed = b[0] == 0x2b || b[0] == 0x2d;
    let digits = if signed {
        b.subrange(1, 8)
    } else {
        b.subrange(0, 8)
    };
    if !all_digits(digits, 36) {
        None
    } else if b[0] == 0x2d {
        Some(TIME2000 - number(digits, 36))
    } else {
        Some(TIME2000 + number(digits, 36))
    }
}

/// The counter that the bytes of `b` from the twelfth on denote: at least one
/// decimal digit, after an optional plus sign, and no more than a `u16` holds.
pub open spec fn counter_of(b: Seq<u8>) -> Option<int>
    recommends
        b.len() >= 12,
{
    let digits = if b.len() > 12 && b[12] == 0x2b {
        b.subrange(13, b.len() as int)
    } else {
        b.subrange(12, b.len() as int)
    };
    if digits.len() > 0 {
        bounded_number(digits, 10, 0xffff)
    } else {
        None
    }
}

/// The identifier that the bytes `b` denote, if any.
pub open spec fn parse(b: Seq<u8>) -> Option<AidxView> {
    if b.len() < 12 {
        None
    } else {
        match (timestamp_of(b), counter_of(b)) {
            (Some(t), Some(c)) => Some(
                AidxView { timestamp: t, node_id: b.subrange(8, 12), counter: c },
            ),
            _ => None,
        }
    }
}

impl Aidx {
    /// The node field as text, one character per byte.
    pub open spec fn node_text(self) -> Seq<char> {
        Seq::new(NODE_LENGTH as nat, |i: int| self.node_id@[i] as char)
    }

    /// The text of this identifier: the milliseconds since the year 2000 as
    /// eight base-36 digits (zero when the timestamp lies before it), the
    /// node field, and the counter in decimal with at least four digits.
    pub open spec fn text(self) -> Seq<char> {
        let since: nat = if self.timestamp >= TIME2000 {
            (self.timestamp - TIME2000) as nat
        } else {
            0
        };
        let width: nat = if self.counter < 10000 {
            4
        } else {
            5
        };
        digits_of(since, 36, 8) + self.node_text() + digits_of(self.counter as nat, 10, width)
    }

    /// The node field as text, one character per byte.
    pub fn node_id_to_string(&self) -> (s: String)
        ensures
            s@ == self.node_text(),
    {
        let mut s = String::new();
        let mut i: usize = 0;
        while i < NODE_LENGTH
            invariant
                i <= NODE_LENGTH,
                s@ == Seq::new(i as nat, |k: int| self.node_id@[k] as char),
            decreases NODE_LENGTH - i,
        {
            s.push(self.node_id[i] as char);
            i = i + 1;
            assert(s@ =~= Seq::new(i as nat, |k: int| self.node_id@[k] as char));
        }
        s
    }

    /// Writes the identifier as text.
    pub fn to_string(&self) -> (s: String)
        ensures
            s@ == self.text(),
    {
        let since: u64 = if self.timestamp >= TIME2000 {
            (self.timestamp - TIME2000) as u64
        } else {
            0
        };
        let mut s = Radix36::new(since).format(Some(TIME_LENGTH));
        let mut i: usize = 0;
        while i < NODE_LENGTH
            invariant
                i <= NODE_LENGTH,
                s@ == digits_of(since as nat, 36, 8) + Seq::new(
                    i as nat,
                    |k: int| self.node_id@[k] as char,
                ),
            decreases NODE_LENGTH - i,
        {
            s.push(self.node_id[i] as char);
            i = i + 1;
            assert(s@ =~= digits_of(since as nat, 36, 8) + Seq::new(
                i as nat,
                |k: int| self.node_id@[k] as char,
            ));
        }
        let width: usize = if self.counter < 10000 {
            NOISE_LENGTH
        } else {
            NOISE_LENGTH + 1
        };
        push_digits(&mut s, self.counter as u64, 10, width);
        s
    }
}

impl std::str::FromStr for Aidx {
    type Err = ParseAidxError;

    /// Reads an identifier from text. The first eight bytes are the
    /// timestamp, the next four the node, the rest the counter; text that is
    /// shorter, or whose timestamp or counter does not read as a number, is
    /// refused.
    fn from_str(s: &str) -> (r: Result<Aidx, ParseAidxError>)
        ensures
            match r {
                Ok(a) => parse(s.spec_bytes()) == Some(a@),
                Err(_) => parse(s.spec_bytes()) is None,
            },
    {
        let bytes = s.as_bytes();
        let n = bytes.len();
        if n < TIME_LENGTH + NODE_LENGTH {
            return Err(ParseAidxError { _priv: () });
        }
        let negative = bytes[0] == 0x2d;
        let start: usize = if negative || bytes[0] == 0x2b {
            1
        } else {
            0
        };
        let magnitude: u64 = match parse_digits(bytes, start, TIME_LENGTH, 36, 0x00ff_ffff_ffff_ffff) {
            Some(v) => v,
            None => {
                proof {
                    let digits = bytes@.subrange(start as int, 8);
                    if all_digits(digits, 36) {
                        lemma_number_bounds(digits, 36);
                        lemma_power_bound(digits.len());
                    }
                }
                return Err(ParseAidxError { _priv: () });
            },
        };
        proof {
            let digits = bytes@.subrange(start as int, 8);
            lemma_number_bounds(digits, 36);
            lemma_power_bound(digits.len());
        }
        let timestamp: i64 = if negative {
            TIME2000 - (magnitude as i64)
        } else {
            TIME2000 + (magnitude as i64)
        };
        let node_id: [u8; NODE_LENGTH] = [bytes[8], bytes[9], bytes[10], bytes[11]];
        let from: usize = if n > 12 && bytes[12] == 0x2b {
            13
        } else {
            12
        };
        if from == n {
            return Err(ParseAidxError { _priv: () });
        }
        let counter: u16 = match parse_digits(bytes, from, n, 10, 0xffff) {
            Some(v) => v as u16,
            None => {
                return Err(ParseAidxError { _priv: () });
            },
        };
        let a = Aidx { timestamp, node_id, counter };
        assert(a@.node_id =~= bytes@.subrange(8, 12));
        Ok(a)
    }
}

/// Up to eight base-36 digits stay below thirty-six to the eighth power.
pub proof fn lemma_power_bound(n: nat)
    requires
        n <= 8,
    ensures
        0 < power(36, n) <= 2821109907456,
{
    reveal_with_fuel(power, 9);
}

/// The bytes of a text that is all ASCII: one byte for each character.
pub open spec fn ascii_bytes(text: Seq<char>) -> Seq<u8> {
    Seq::new(text.len(), |i: int| text[i] as u8)
}

/// An id whose text names it without loss: its timestamp lies in the span
/// that eight base-36 digits count from the year 2000, and its node field is
/// ASCII.
pub open spec fn canonical(a: Aidx) -> bool {
    &&& TIME2000 <= a.timestamp < TIME2000 + 2821109907456
    &&& forall|i: int| 0 <= i < NODE_LENGTH ==> (#[trigger] a.node_id@[i]) < 128
}

/// Digits are written one character each.
pub proof fn lemma_digits_len(x: nat, radix: nat, width: nat)
    requires
        radix > 0,
    ensures
        digits_of(x, radix, width).len() == width,
    decreases width,
{
    if width > 0 {
        lemma_digits_len(x / radix, radix, (width - 1) as nat);
    }
}

/// The digits that a number is written with are ASCII, are digits of the
/// radix, and denote the number, if the width is enough for it.
pub proof fn lemma_digits_read_back(x: nat, radix: nat, width: nat)
    requires
        2 <= radix <= 36,
        x < power(radix as int, width),
    ensures
        vstd::utf8::is_ascii_chars(digits_of(x, radix, width)),
        all_digits(ascii_bytes(digits_of(x, radix, width)), radix as int),
        number(ascii_bytes(digits_of(x, radix, width)), radix as int) == x,
    decreases width,
{
    let text = digits_of(x, radix, width);
    let bytes = ascii_bytes(text);
    lemma_digits_len(x, radix, width);
    if width > 0 {
        let high = x / radix;
        let low = x % radix;
        let p = power(radix as int, (width - 1) as nat);
        assert(high < p && high * radix + low == x && low < radix) by (nonlinear_arith)
            requires
                x < p * radix,
                radix >= 2,
                high == x / radix,
                low == x % radix,
        ;
        lemma_digits_read_back(high, radix, (width - 1) as nat);
        lemma_digits_len(high, radix, (width - 1) as nat);
        let init = digits_of(high, radix, (width - 1) as nat);
        let c = digit_char(low as int);
        assert(text == init.push(c));
        assert(digit_of(c as u8) == low);
        assert('\0' <= c <= '\u{7f}');
        assert(bytes.drop_last() =~= ascii_bytes(init));
        assert(bytes.last() == c as u8);
        assert forall|i: int| 0 <= i < text.len() implies '\0' <= #[trigger] text[i]
            <= '\u{7f}' by {
            if i < init.len() {
                assert(text[i] == init[i]);
            }
        }
        assert forall|i: int| 0 <= i < bytes.len() implies digit_of(#[trigger] bytes[i])
            < radix by {
            if i < init.len() {
                assert(bytes[i] == ascii_bytes(init)[i]);
            }
        }
    }
}

/// Reading the text of a canonical id gives the id back.
pub proof fn lemma_text_reads_back(a: Aidx)
    requires
        canonical(a),
    ensures
        vstd::utf8::is_ascii_chars(a.text()),
        parse(ascii_bytes(a.text())) == Some(a@),
        parse(vstd::utf8::encode_utf8(a.text())) == Some(a@),
{
    let since = (a.timestamp - TIME2000) as nat;
    let width: nat = if a.counter < 10000 {
        4
    } else {
        5
    };
    let time = digits_of(since, 36, 8);
    let node = a.node_text();
    let count = digits_of(a.counter as nat, 10, width);
    let text = a.text();
    let bytes = ascii_bytes(text);
    assert(power(36, 8) == 2821109907456 && power(10, 4) == 10000 && power(10, 5) == 100000) by {
        reveal_with_fuel(power, 9);
    }
    lemma_digits_read_back(since, 36, 8);
    lemma_digits_read_back(a.counter as nat, 10, width);
    lemma_digits_len(since, 36, 8);
    lemma_digits_len(a.counter as nat, 10, width);
    assert(text == time + node + count);
    assert(text.len() == 12 + width);
    assert forall|i: int| 0 <= i < text.len() implies '\0' <= #[trigger] text[i] <= '\u{7f}' by {
        if i < 8 {
            assert(text[i] == time[i]);
        } else if i < 12 {
            assert(text[i] == node[i - 8]);
            assert(a.node_id@[i - 8] < 128);
        } else {
            assert(text[i] == count[i - 12]);
        }
    }
    assert(bytes.subrange(0, 8) =~= ascii_bytes(time)) by {
        assert forall|i: int| 0 <= i < 8 implies bytes.subrange(0, 8)[i] == ascii_bytes(time)[i] by {
            assert(text[i] == time[i]);
        }
    }
    assert(bytes.subrange(12, bytes.len() as int) =~= ascii_bytes(count)) by {
        assert forall|i: int| 0 <= i < width implies bytes.subrange(12, bytes.len() as int)[i]
            == ascii_bytes(count)[i] by {
            assert(text[i + 12] == count[i]);
        }
    }
    assert(bytes.subrange(8, 12) =~= a.node_id@) by {
        assert forall|i: int| 0 <= i < 4 implies bytes.subrange(8, 12)[i] == a.node_id@[i] by {
            assert(text[i + 8] == node[i]);
            assert(a.node_id@[i] < 128);
        }
    }
    assert(digit_of(bytes[0]) < 36) by {
        assert(bytes[0] == ascii_bytes(time)[0]);
    }
    assert(digit_of(bytes[12]) < 10) by {
        assert(bytes[12] == ascii_bytes(count)[0]);
    }
    assert(timestamp_of(bytes) == Some(a.timestamp as int));
    assert(counter_of(bytes) == Some(a.counter as int));
    vstd::utf8::is_ascii_chars_encode_utf8(text);
    assert(vstd::utf8::encode_utf8(text) =~= bytes);
}

/// A text that is written the one way in which ids are written: eight
/// base-36 digits in lower case, four ASCII bytes, and a decimal counter of
/// four digits, or of five that do not start with a zero.
pub open spec fn canonical_text(b: Seq<u8>) -> bool {
    &&& b.len() == 16 || b.len() == 17
    &&& forall|i: int| 0 <= i < 8 ==> digit_of(#[trigger] b[i]) < 36 && !(0x41 <= b[i] <= 0x5a)
    &&& forall|i: int| 8 <= i < 12 ==> (#[trigger] b[i]) < 128
    &&& forall|i: int| 12 <= i < b.len() ==> digit_of(#[trigger] b[i]) < 10
    &&& b.len() == 17 ==> b[12] != 0x30
}

/// Writing the number that lower-case digits denote, with as many digits,
/// gives the digits back.
pub proof fn lemma_number_writes_back(d: Seq<u8>, radix: int)
    requires
        2 <= radix <= 36,
        forall|i: int| 0 <= i < d.len() ==> digit_of(#[trigger] d[i]) < radix && !(0x41 <= d[i] <= 0x5a),
    ensures
        number(d, radix) >= 0,
        ascii_bytes(digits_of(number(d, radix) as nat, radix as nat, d.len())) == d,
    decreases d.len(),
{
    let text = digits_of(number(d, radix) as nat, radix as nat, d.len());
    if d.len() == 0 {
        assert(ascii_bytes(text) =~= d);
    } else {
        let init = d.drop_last();
        assert forall|i: int| 0 <= i < init.len() implies digit_of(#[trigger] init[i]) < radix && !(
        0x41 <= init[i] <= 0x5a) by {
            assert(init[i] == d[i]);
        }
        lemma_number_writes_back(init, radix);
        let high = number(init, radix);
        let low = digit_of(d.last());
        let n = number(d, radix);
        assert(d.last() == d[d.len() - 1]);
        assert(n == high * radix + low);
        assert(n >= 0 && n / radix == high && n % radix == low) by (nonlinear_arith)
            requires
                n == high * radix + low,
                0 <= low < radix,
                high >= 0,
        ;
        let written = digits_of(high as nat, radix as nat, init.len());
        lemma_digits_len(high as nat, radix as nat, init.len());
        assert(text == written.push(digit_char(low)));
        assert(digit_char(low) as u8 == d.last());
        assert(ascii_bytes(text) =~= ascii_bytes(written).push(d.last()));
        assert(init.push(d.last()) =~= d);
    }
}

/// Digits denote at least what their first digit alone contributes.
pub proof fn lemma_number_lower(d: Seq<u8>, radix: int)
    requires
        2 <= radix <= 36,
        d.len() >= 1,
        all_digits(d, radix),
    ensures
        number(d, radix) >= digit_of(d[0]) * power(radix, (d.len() - 1) as nat),
    decreases d.len(),
{
    if d.len() == 1 {
        assert(d.drop_last().len() == 0);
        assert(number(d.drop_last(), radix) == 0);
        assert(d.last() == d[0]);
        assert(power(radix, 0) == 1);
    } else {
        let init = d.drop_last();
        assert(all_digits(init, radix)) by {
            assert forall|i: int| 0 <= i < init.len() implies digit_of(#[trigger] init[i])
                < radix by {
                assert(init[i] == d[i]);
            }
        }
        lemma_number_lower(init, radix);
        assert(init[0] == d[0]);
        let first = digit_of(d[0]);
        let p = power(radix, (init.len() - 1) as nat);
        let high = number(init, radix);
        let low = digit_of(d.last());
        assert(power(radix, (d.len() - 1) as nat) == p * radix);
        assert(high * radix + low >= first * (p * radix)) by (nonlinear_arith)
            requires
                high >= first * p,
                low >= 0,
                radix >= 2,
        ;
    }
}

/// Writing the id that a canonical text denotes gives the text back.
pub proof fn lemma_parse_writes_back(b: Seq<u8>, a: Aidx)
    requires
        canonical_text(b),
        parse(b) == Some(a@),
    ensures
        vstd::utf8::is_ascii_chars(a.text()),
        ascii_bytes(a.text()) == b,
        vstd::utf8::encode_utf8(a.text()) == b,
        canonical(a),
{
    let time = b.subrange(0, 8);
    let count = b.subrange(12, b.len() as int);
    assert(digit_of(b[0]) < 36);
    assert(digit_of(b[12]) < 10);
    assert forall|i: int| 0 <= i < 8 implies digit_of(#[trigger] time[i]) < 36 && !(0x41
        <= time[i] <= 0x5a) by {
        assert(time[i] == b[i]);
    }
    assert forall|i: int| 0 <= i < count.len() implies digit_of(#[trigger] count[i]) < 10 && !(
    0x41 <= count[i] <= 0x5a) by {
        assert(count[i] == b[i + 12]);
    }
    assert(all_digits(time, 36));
    assert(all_digits(count, 10));
    lemma_number_writes_back(time, 36);
    lemma_number_writes_back(count, 10);
    lemma_number_bounds(time, 36);
    lemma_number_bounds(count, 10);
    assert(power(36, 8) == 2821109907456 && power(10, 4) == 10000 && power(10, 5) == 100000) by {
        reveal_with_fuel(power, 9);
    }
    let since = number(time, 36);
    let counter = number(count, 10);
    assert(a.timestamp == TIME2000 + since);
    assert(a.counter == counter);
    assert(a.node_id@ == b.subrange(8, 12));
    if b.len() == 17 {
        lemma_number_lower(count, 10);
        assert(count[0] == b[12]);
        assert(digit_of(count[0]) >= 1);
        assert(counter >= 10000) by (nonlinear_arith)
            requires
                counter >= digit_of(count[0]) * 10000,
                digit_of(count[0]) >= 1,
        ;
    }
    let width: nat = if a.counter < 10000 {
        4
    } else {
        5
    };
    assert(width == count.len());
    let written_time = digits_of(since as nat, 36, 8);
    let written_count = digits_of(counter as nat, 10, width);
    lemma_digits_len(since as nat, 36, 8);
    lemma_digits_len(counter as nat, 10, width);
    let text = a.text();
    assert(text == written_time + a.node_text() + written_count);
    assert(canonical(a)) by {
        assert forall|i: int| 0 <= i < NODE_LENGTH implies (#[trigger] a.node_id@[i]) < 128 by {
            assert(a.node_id@[i] == b[i + 8]);
        }
    }
    assert(ascii_bytes(text) =~= b) by {
        assert forall|i: int| 0 <= i < b.len() implies ascii_bytes(text)[i] == b[i] by {
            if i < 8 {
                assert(text[i] == written_time[i]);
                assert(ascii_bytes(written_time)[i] == time[i]);
            } else if i < 12 {
                assert(text[i] == a.node_text()[i - 8]);
                assert(a.node_id@[i - 8] == b[i]);
            } else {
                assert(text[i] == written_count[i - 12]);
                assert(ascii_bytes(written_count)[i - 12] == count[i - 12]);
            }
        }
    }
    lemma_text_reads_back(a);
    vstd::utf8::is_ascii_chars_encode_utf8(text);
    assert(vstd::utf8::encode_utf8(text) =~= b);
}

} // verus!
