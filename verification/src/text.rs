//! Small pieces of text handling on bytes: splitting at a separator, dropping
//! surrounding white space, and reading and writing decimal integers.

use vstd::prelude::*;
use vstd::slice::slice_subrange;
use vstd::slice::slice_to_vec;
use vstd::string::StringExecFns;

verus! {

/// The fields of `b` from `start` on, given that no separator lies in
/// `start..at`: a field ends at each separator and at the end of the text.
pub open spec fn fields_scan(b: Seq<u8>, sep: u8, start: int, at: int) -> Seq<Seq<u8>>
    decreases b.len() - at,
{
    if at >= b.len() {
        seq![b.subrange(start, b.len() as int)]
    } else if b[at] == sep {
        seq![b.subrange(start, at)] + fields_scan(b, sep, at + 1, at + 1)
    } else {
        fields_scan(b, sep, start, at + 1)
    }
}

/// The pieces between the separators of `b`, in order. There is always at
/// least one; text without a separator is a single field.
pub open spec fn fields(b: Seq<u8>, sep: u8) -> Seq<Seq<u8>> {
    fields_scan(b, sep, 0, 0)
}

/// What each vector of a list holds.
pub open spec fn views(parts: Seq<Vec<u8>>) -> Seq<Seq<u8>> {
    Seq::new(parts.len(), |i: int| parts[i]@)
}

/// The fields `f` with `sep` put between them.
pub open spec fn joined(f: Seq<Seq<u8>>, sep: u8) -> Seq<u8>
    decreases f.len(),
{
    if f.len() == 0 {
        Seq::empty()
    } else if f.len() == 1 {
        f[0]
    } else {
        f[0] + seq![sep] + joined(f.skip(1), sep)
    }
}

/// Whether `sep` occurs in `piece`.
pub open spec fn holds_separator(piece: Seq<u8>, sep: u8) -> bool {
    exists|i: int| 0 <= i < piece.len() && piece[i] == sep
}

proof fn fields_scan_splits(b: Seq<u8>, sep: u8, start: int, at: int)
    requires
        0 <= start <= at <= b.len(),
        forall|i: int| start <= i < at ==> b[i] != sep,
    ensures
        fields_scan(b, sep, start, at).len() >= 1,
        joined(fields_scan(b, sep, start, at), sep) == b.subrange(start, b.len() as int),
        forall|k: int|
            0 <= k < fields_scan(b, sep, start, at).len() ==> !holds_separator(
                #[trigger] fields_scan(b, sep, start, at)[k],
                sep,
            ),
    decreases b.len() - at,
{
    let all = fields_scan(b, sep, start, at);
    if at >= b.len() {
        assert(all =~= seq![b.subrange(start, b.len() as int)]);
    } else if b[at] == sep {
        let first = b.subrange(start, at);
        let rest = fields_scan(b, sep, at + 1, at + 1);
        fields_scan_splits(b, sep, at + 1, at + 1);
        assert(all == seq![first] + rest);
        assert(all.skip(1) =~= rest);
        assert(all[0] == first);
        assert(first + seq![sep] + b.subrange(at + 1, b.len() as int) =~= b.subrange(
            start,
            b.len() as int,
        ));
        assert forall|k: int| 0 <= k < all.len() implies !holds_separator(
            #[trigger] all[k],
            sep,
        ) by {
            if k > 0 {
                assert(all[k] == rest[k - 1]);
            }
        }
    } else {
        fields_scan_splits(b, sep, start, at + 1);
    }
}

/// Splitting loses nothing: no field holds the separator, and the fields
/// with the separator put between them are the text again.
pub proof fn fields_join_back(b: Seq<u8>, sep: u8)
    ensures
        fields(b, sep).len() >= 1,
        joined(fields(b, sep), sep) == b,
        forall|k: int|
            0 <= k < fields(b, sep).len() ==> !holds_separator(#[trigger] fields(b, sep)[k], sep),
{
    fields_scan_splits(b, sep, 0, 0);
    assert(b.subrange(0, b.len() as int) =~= b);
}

/// Splits `b` at every `sep`.
pub fn split(b: &[u8], sep: u8) -> (parts: Vec<Vec<u8>>)
    ensures
        views(parts@) == fields(b@, sep),
{
    let mut parts: Vec<Vec<u8>> = Vec::new();
    let mut start: usize = 0;
    let mut at: usize = 0;
    while at < b.len()
        invariant
            start <= at <= b.len(),
            views(parts@) + fields_scan(b@, sep, start as int, at as int) == fields(b@, sep),
        decreases b.len() - at,
    {
        if b[at] == sep {
            let piece = slice_to_vec(slice_subrange(b, start, at));
            proof {
                assert(views(parts@.push(piece)) =~= views(parts@) + seq![piece@]);
                assert((views(parts@) + seq![piece@]) + fields_scan(
                    b@,
                    sep,
                    at + 1,
                    at + 1,
                ) =~= views(parts@) + (seq![piece@] + fields_scan(b@, sep, at + 1, at + 1)));
            }
            parts.push(piece);
            start = at + 1;
        }
        at = at + 1;
    }
    let piece = slice_to_vec(slice_subrange(b, start, b.len()));
    proof {
        assert(views(parts@.push(piece)) =~= views(parts@) + seq![piece@]);
    }
    parts.push(piece);
    parts
}

/// Whether `c` is an ASCII decimal digit.
pub open spec fn is_digit(c: u8) -> bool {
    48 <= c <= 57
}

/// Whether every byte of `d` is a decimal digit.
pub open spec fn all_digits(d: Seq<u8>) -> bool {
    forall|i: int| 0 <= i < d.len() ==> is_digit(#[trigger] d[i])
}

/// The number that a run of decimal digits writes; the empty run writes zero.
pub open spec fn digits_value(d: Seq<u8>) -> int
    decreases d.len(),
{
    if d.len() == 0 {
        0
    } else {
        10 * digits_value(d.drop_last()) + (d.last() as int - 48)
    }
}

/// The digits of a signed decimal, without its sign.
pub open spec fn unsigned_part(b: Seq<u8>) -> Seq<u8> {
    if b.len() > 0 && (b[0] == 43 || b[0] == 45) {
        b.subrange(1, b.len() as int)
    } else {
        b
    }
}

/// The number that `b` writes as a signed decimal: an optional `+` or `-`,
/// then at least one digit and nothing else. Leading zeros are allowed.
pub open spec fn signed_value(b: Seq<u8>) -> Option<int> {
    let d = unsigned_part(b);
    if d.len() == 0 || !all_digits(d) {
        None
    } else if b[0] == 45 {
        Some(-digits_value(d))
    } else {
        Some(digits_value(d))
    }
}

/// The `i32` that `b` writes in decimal, if it writes one that fits.
pub open spec fn decimal_i32(b: Seq<u8>) -> Option<i32> {
    match signed_value(b) {
        Some(v) => if i32::MIN <= v <= i32::MAX {
            Some(v as i32)
        } else {
            None
        },
        None => None,
    }
}

/// A run of digits is worth at least as much as any of its prefixes.
pub proof fn digits_value_grows(d: Seq<u8>, k: int)
    requires
        all_digits(d),
        0 <= k <= d.len(),
    ensures
        0 <= digits_value(d.take(k)) <= digits_value(d),
    decreases d.len(),
{
    if d.len() == 0 {
        assert(d.take(k) =~= d);
    } else if k == d.len() {
        assert(d.take(k) =~= d);
        digits_value_grows(d.drop_last(), k - 1);
        assert(is_digit(d[d.len() - 1]));
    } else {
        digits_value_grows(d.drop_last(), k);
        assert(d.drop_last().take(k) =~= d.take(k));
        assert(is_digit(d[d.len() - 1]));
    }
}

/// A run of at most two digits is worth at most 99, and a single digit at
/// most 9.
pub proof fn digits_value_bound(d: Seq<u8>)
    requires
        all_digits(d),
        d.len() <= 2,
    ensures
        0 <= digits_value(d) <= 99,
        d.len() <= 1 ==> digits_value(d) <= 9,
    decreases d.len(),
{
    if d.len() > 0 {
        assert(is_digit(d[d.len() - 1]));
        assert forall|i: int| 0 <= i < d.drop_last().len() implies is_digit(
            #[trigger] d.drop_last()[i],
        ) by {
            assert(d.drop_last()[i] == d[i]);
        }
        digits_value_bound(d.drop_last());
    }
}

/// Reads a signed decimal that fits an `i32`.
pub fn parse_i32(b: &[u8]) -> (r: Option<i32>)
    ensures
        r == decimal_i32(b@),
{
    let n: usize = b.len();
    if n == 0 {
        return None;
    }
    let negative: bool = b[0] == 45;
    let first: usize = if b[0] == 43 || b[0] == 45 {
        1
    } else {
        0
    };
    if first == n {
        return None;
    }
    let ghost d = unsigned_part(b@);
    assert(d == b@.subrange(first as int, n as int));
    let mut acc: i64 = 0;
    let mut at: usize = first;
    while at < n
        invariant
            first <= at <= n,
            n == b@.len(),
            d == unsigned_part(b@),
            d == b@.subrange(first as int, n as int),
            all_digits(d.take(at - first)),
            acc == digits_value(d.take(at - first)),
            0 <= acc <= 2147483648,
        decreases n - at,
    {
        let c: u8 = b[at];
        if c < 48 || c > 57 {
            proof {
                assert(d[at - first] == c);
                assert(!is_digit(d[at - first]));
            }
            return None;
        }
        let ghost before = d.take(at - first);
        let ghost after = d.take(at - first + 1);
        proof {
            assert(after.drop_last() =~= before);
            assert(after.last() == c);
            assert forall|i: int| 0 <= i < after.len() implies is_digit(#[trigger] after[i]) by {
                if i < before.len() {
                    assert(after[i] == before[i]);
                }
            }
        }
        acc = acc * 10 + (c as i64 - 48);
        at = at + 1;
        if acc > 2147483648 {
            // Too large whatever follows, unless a later byte is no digit at all.
            let mut rest: usize = at;
            while rest < n
                invariant
                    at <= rest <= n,
                    first < at,
                    n == b@.len(),
                    d == unsigned_part(b@),
                    d == b@.subrange(first as int, n as int),
                    all_digits(d.take(rest - first)),
                    digits_value(d.take(at - first)) > 2147483648,
                decreases n - rest,
            {
                let c2: u8 = b[rest];
                if c2 < 48 || c2 > 57 {
                    proof {
                        assert(d[rest - first] == c2);
                        assert(!is_digit(d[rest - first]));
                    }
                    return None;
                }
                proof {
                    let shorter = d.take(rest - first);
                    let longer = d.take(rest - first + 1);
                    assert forall|i: int| 0 <= i < longer.len() implies is_digit(
                        #[trigger] longer[i],
                    ) by {
                        if i < shorter.len() {
                            assert(longer[i] == shorter[i]);
                        }
                    }
                }
                rest = rest + 1;
            }
            proof {
                assert(d.take(n - first) =~= d);
                digits_value_grows(d, at - first);
            }
            return None;
        }
    }
    proof {
        assert(d.take(n - first) =~= d);
    }
    if negative {
        Some((0 - acc) as i32)
    } else if acc <= 2147483647 {
        Some(acc as i32)
    } else {
        None
    }
}

/// Whether the single byte `c` is a white-space character.
pub open spec fn is_narrow_space(c: u8) -> bool {
    9 <= c <= 13 || c == 32
}

/// Whether the two bytes encode a white-space character (U+0085, U+00A0).
pub open spec fn is_middle_space(c0: u8, c1: u8) -> bool {
    c0 == 0xC2 && (c1 == 0x85 || c1 == 0xA0)
}

/// Whether the three bytes encode a white-space character (U+1680,
/// U+2000 to U+200A, U+2028, U+2029, U+202F, U+205F, U+3000).
pub open spec fn is_wide_space(c0: u8, c1: u8, c2: u8) -> bool {
    ||| c0 == 0xE1 && c1 == 0x9A && c2 == 0x80
    ||| c0 == 0xE2 && c1 == 0x80 && (0x80 <= c2 <= 0x8A || c2 == 0xA8 || c2 == 0xA9 || c2
        == 0xAF)
    ||| c0 == 0xE2 && c1 == 0x81 && c2 == 0x9F
    ||| c0 == 0xE3 && c1 == 0x80 && c2 == 0x80
}

/// How many bytes the white-space character starting at `at` takes, within
/// `b` up to `end`; zero if none starts there.
pub open spec fn space_len_at(b: Seq<u8>, at: int, end: int) -> int {
    if at < 0 || end > b.len() {
        0
    } else if at + 1 <= end && is_narrow_space(b[at]) {
        1
    } else if at + 2 <= end && is_middle_space(b[at], b[at + 1]) {
        2
    } else if at + 3 <= end && is_wide_space(b[at], b[at + 1], b[at + 2]) {
        3
    } else {
        0
    }
}

/// How many bytes the white-space character ending at `end` takes, within
/// `b` from `start`; zero if none ends there.
pub open spec fn space_len_before(b: Seq<u8>, start: int, end: int) -> int {
    if start < 0 || end > b.len() {
        0
    } else if start + 1 <= end && is_narrow_space(b[end - 1]) {
        1
    } else if start + 2 <= end && is_middle_space(b[end - 2], b[end - 1]) {
        2
    } else if start + 3 <= end && is_wide_space(b[end - 3], b[end - 2], b[end - 1]) {
        3
    } else {
        0
    }
}

/// The first position from `at` on at which no white space starts.
pub open spec fn skip_spaces(b: Seq<u8>, at: int) -> int
    decreases b.len() - at,
{
    if space_len_at(b, at, b.len() as int) == 0 {
        at
    } else {
        skip_spaces(b, at + space_len_at(b, at, b.len() as int))
    }
}

/// The last position down to `start` before which no white space ends.
pub open spec fn skip_spaces_back(b: Seq<u8>, start: int, end: int) -> int
    decreases end,
{
    if space_len_before(b, start, end) == 0 {
        end
    } else {
        skip_spaces_back(b, start, end - space_len_before(b, start, end))
    }
}

/// Where the text of `b` starts once leading white space is dropped.
pub open spec fn trim_start(b: Seq<u8>) -> int {
    skip_spaces(b, 0)
}

/// Where the text of `b` ends once trailing white space is dropped too.
pub open spec fn trim_end(b: Seq<u8>) -> int {
    skip_spaces_back(b, trim_start(b), b.len() as int)
}

/// `b` without the white space at its two ends. White space is what Unicode
/// calls so, in UTF-8.
pub open spec fn trimmed(b: Seq<u8>) -> Seq<u8> {
    b.subrange(trim_start(b), trim_end(b))
}

fn space_at(b: &[u8], at: usize, end: usize) -> (n: usize)
    requires
        at <= end <= b@.len(),
    ensures
        n as int == space_len_at(b@, at as int, end as int),
        at + n <= end,
{
    let left: usize = end - at;
    if left >= 1 && (b[at] == 32 || (9 <= b[at] && b[at] <= 13)) {
        1
    } else if left >= 2 && b[at] == 0xC2 && (b[at + 1] == 0x85 || b[at + 1] == 0xA0) {
        2
    } else if left >= 3 && wide_space(b[at], b[at + 1], b[at + 2]) {
        3
    } else {
        0
    }
}

fn space_before(b: &[u8], start: usize, end: usize) -> (n: usize)
    requires
        start <= end <= b@.len(),
    ensures
        n as int == space_len_before(b@, start as int, end as int),
        start + n <= end,
{
    let left: usize = end - start;
    if left >= 1 && (b[end - 1] == 32 || (9 <= b[end - 1] && b[end - 1] <= 13)) {
        1
    } else if left >= 2 && b[end - 2] == 0xC2 && (b[end - 1] == 0x85 || b[end - 1] == 0xA0) {
        2
    } else if left >= 3 && wide_space(b[end - 3], b[end - 2], b[end - 1]) {
        3
    } else {
        0
    }
}

fn wide_space(c0: u8, c1: u8, c2: u8) -> (r: bool)
    ensures
        r == is_wide_space(c0, c1, c2),
{
    (c0 == 0xE1 && c1 == 0x9A && c2 == 0x80) || (c0 == 0xE2 && c1 == 0x80 && ((0x80 <= c2 && c2
        <= 0x8A) || c2 == 0xA8 || c2 == 0xA9 || c2 == 0xAF)) || (c0 == 0xE2 && c1 == 0x81 && c2
        == 0x9F) || (c0 == 0xE3 && c1 == 0x80 && c2 == 0x80)
}

/// Drops the white space at both ends of `b`.
pub fn trim(b: &[u8]) -> (r: &[u8])
    ensures
        r@ == trimmed(b@),
{
    let n: usize = b.len();
    let mut start: usize = 0;
    loop
        invariant
            start <= n == b@.len(),
            skip_spaces(b@, start as int) == trim_start(b@),
        ensures
            start as int == trim_start(b@),
        decreases n - start,
    {
        let step: usize = space_at(b, start, n);
        if step == 0 {
            break ;
        }
        start = start + step;
    }
    let mut end: usize = n;
    loop
        invariant
            start <= end <= n == b@.len(),
            start as int == trim_start(b@),
            skip_spaces_back(b@, start as int, end as int) == trim_end(b@),
        ensures
            end as int == trim_end(b@),
        decreases end,
    {
        let step: usize = space_before(b, start, end);
        if step == 0 {
            break ;
        }
        end = end - step;
    }
    slice_subrange(b, start, end)
}

/// The character that writes the digit `d`.
pub open spec fn digit_char(d: int) -> char {
    if d == 0 {
        '0'
    } else if d == 1 {
        '1'
    } else if d == 2 {
        '2'
    } else if d == 3 {
        '3'
    } else if d == 4 {
        '4'
    } else if d == 5 {
        '5'
    } else if d == 6 {
        '6'
    } else if d == 7 {
        '7'
    } else if d == 8 {
        '8'
    } else {
        '9'
    }
}

/// The decimal digits of `n`, without leading zeros.
pub open spec fn decimal_nat(n: nat) -> Seq<char>
    decreases n,
{
    if n < 10 {
        seq![digit_char(n as int)]
    } else {
        decimal_nat(n / 10).push(digit_char((n % 10) as int))
    }
}

/// `n` in decimal, with a `-` in front when it is negative.
pub open spec fn decimal(n: int) -> Seq<char> {
    if n < 0 {
        seq!['-'] + decimal_nat((-n) as nat)
    } else {
        decimal_nat(n as nat)
    }
}

fn digit_text(d: u32) -> (r: &'static str)
    requires
        d < 10,
    ensures
        r@ == seq![digit_char(d as int)],
{
    proof {
        reveal_strlit("0");
        reveal_strlit("1");
        reveal_strlit("2");
        reveal_strlit("3");
        reveal_strlit("4");
        reveal_strlit("5");
        reveal_strlit("6");
        reveal_strlit("7");
        reveal_strlit("8");
        reveal_strlit("9");
    }
    let r = if d == 0 {
        "0"
    } else if d == 1 {
        "1"
    } else if d == 2 {
        "2"
    } else if d == 3 {
        "3"
    } else if d == 4 {
        "4"
    } else if d == 5 {
        "5"
    } else if d == 6 {
        "6"
    } else if d == 7 {
        "7"
    } else if d == 8 {
        "8"
    } else {
        "9"
    };
    assert(r@ =~= seq![digit_char(d as int)]);
    r
}

fn push_decimal_nat(s: &mut String, n: u32)
    ensures
        final(s)@ == old(s)@ + decimal_nat(n as nat),
    decreases n,
{
    if n >= 10 {
        push_decimal_nat(s, n / 10);
    }
    s.append(digit_text(n % 10));
    proof {
        if n >= 10 {
            assert(final(s)@ =~= old(s)@ + decimal_nat(n as nat));
        }
    }
}

/// Appends `n` in decimal to `s`.
pub fn push_decimal(s: &mut String, n: i32)
    ensures
        final(s)@ == old(s)@ + decimal(n as int),
{
    if n < 0 {
        proof {
            reveal_strlit("-");
        }
        s.append("-");
        assert(s@ =~= old(s)@ + seq!['-']);
        let magnitude: u32 = (0 - (n as i64)) as u32;
        push_decimal_nat(s, magnitude);
        assert(final(s)@ =~= old(s)@ + decimal(n as int));
    } else {
        push_decimal_nat(s, n as u32);
    }
}

} // verus!
