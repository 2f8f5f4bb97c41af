use vstd::prelude::*;

verus! {

/// The character of a decimal digit `d` (`0 <= d < 10`).
pub open spec fn digit_char(d: nat) -> char {
    (48 + d) as char
}

/// The decimal representation of `n`, most significant digit first, without
/// leading zeros (zero is written `0`).
pub open spec fn decimal(n: nat) -> Seq<char>
    decreases n,
{
    if n < 10 {
        seq![digit_char(n)]
    } else {
        decimal(n / 10).push(digit_char(n % 10))
    }
}

/// The decimal representation of a signed integer: a `-` before the digits of
/// its magnitude when it is negative.
pub open spec fn signed_decimal(n: int) -> Seq<char> {
    if n < 0 {
        seq!['-'] + decimal((-n) as nat)
    } else {
        decimal(n as nat)
    }
}

/// Whether `c` is one of the ASCII digits `0` to `9`.
pub open spec fn is_decimal_digit(c: char) -> bool {
    '0' <= c <= '9'
}

/// The number that the digits `s` denote, read in base ten.
pub open spec fn decimal_value(s: Seq<char>) -> int
    decreases s.len(),
{
    if s.len() == 0 {
        0
    } else {
        decimal_value(s.drop_last()) * 10 + (s.last() as int - 48)
    }
}

/// Whether `s` is the usual decimal writing of the number `v`: one or more
/// digits, without a leading zero unless `s` is `0` itself, denoting `v`.
pub open spec fn reads_as(s: Seq<char>, v: int) -> bool {
    &&& s.len() > 0
    &&& forall|i: int| 0 <= i < s.len() ==> #[trigger] is_decimal_digit(s[i])
    &&& (s.len() == 1 || s[0] != '0')
    &&& decimal_value(s) == v
}

/// Whether `s` is the usual decimal writing of the signed number `v`: a `-`
/// before the writing of its magnitude when it is negative.
pub open spec fn reads_as_signed(s: Seq<char>, v: int) -> bool {
    if v < 0 {
        s.len() > 0 && s[0] == '-' && reads_as(s.drop_first(), -v)
    } else {
        reads_as(s, v)
    }
}

/// The decimal text of a number reads back as that number, in its usual
/// writing.
pub proof fn lemma_decimal_reads_back(n: nat)
    ensures
        reads_as(decimal(n), n as int),
    decreases n,
{
    let s = decimal(n);
    assert(digit_char(n % 10) as int == 48 + n % 10);
    if n < 10 {
        assert(s.drop_last() =~= Seq::<char>::empty());
        assert(decimal_value(s) == decimal_value(s.drop_last()) * 10 + (s.last() as int - 48));
    } else {
        lemma_decimal_reads_back(n / 10);
        let front = decimal(n / 10);
        assert(s.drop_last() == front);
        assert(s[0] == front[0]);
        if front.len() == 1 {
            assert(front.drop_last() =~= Seq::<char>::empty());
            assert(decimal_value(front.drop_last()) == 0);
            assert(front.last() == front[0]);
            assert(decimal_value(front) == front[0] as int - 48);
        }
        assert(decimal_value(s) == decimal_value(front) * 10 + (s.last() as int - 48));
        assert forall|i: int| 0 <= i < s.len() implies #[trigger] is_decimal_digit(s[i]) by {
            if i < front.len() {
                assert(s[i] == front[i]);
            } else {
                assert(s[i] == digit_char(n % 10));
            }
        }
    }
}

/// The signed decimal text of a number reads back as that number.
pub proof fn lemma_signed_decimal_reads_back(n: int)
    ensures
        reads_as_signed(signed_decimal(n), n),
{
    if n < 0 {
        lemma_decimal_reads_back((-n) as nat);
        assert((seq!['-'] + decimal((-n) as nat)).drop_first() =~= decimal((-n) as nat));
    } else {
        lemma_decimal_reads_back(n as nat);
    }
}

/// Appends one character to a string (`String::push`).
#[verifier::external_body]
pub(crate) fn push_char(s: &mut String, c: char)
    ensures
        final(s)@ == old(s)@.push(c),
{
    s.push(c);
}

/// Appends the decimal digits of `n` to `out`.
fn push_decimal(out: &mut String, n: u64)
    ensures
        final(out)@ == old(out)@ + decimal(n as nat),
    decreases n,
{
    if n >= 10 {
        push_decimal(out, n / 10);
    }
    let d: u64 = n % 10;
    let c: char = ((48u64 + d) as u8) as char;
    push_char(out, c);
}

/// The decimal text of an unsigned integer, as its `Display` writes it.
pub fn u64_to_decimal(n: u64) -> (s: String)
    ensures
        s@ == decimal(n as nat),
{
    let mut s = String::new();
    push_decimal(&mut s, n);
    s
}

/// The decimal text of a signed integer, as its `Display` writes it.
pub fn i32_to_decimal(n: i32) -> (s: String)
    ensures
        s@ == signed_decimal(n as int),
{
    let mut s = String::new();
    if n < 0 {
        push_char(&mut s, '-');
        let magnitude: u64 = (-(n as i64)) as u64;
        push_decimal(&mut s, magnitude);
    } else {
        push_decimal(&mut s, n as u64);
    }
    s
}

/// Whether `c` has the Unicode `White_Space` property (the whitespace that
/// `char::is_whitespace` and `str::trim` recognise).
pub open spec fn is_white_space(c: char) -> bool {
    let u = c as u32;
    ||| 0x09 <= u <= 0x0d
    ||| u == 0x20
    ||| u == 0x85
    ||| u == 0xa0
    ||| u == 0x1680
    ||| 0x2000 <= u <= 0x200a
    ||| u == 0x2028
    ||| u == 0x2029
    ||| u == 0x202f
    ||| u == 0x205f
    ||| u == 0x3000
}

/// `s` without its leading whitespace.
pub open spec fn trim_start(s: Seq<char>) -> Seq<char>
    decreases s.len(),
{
    if s.len() > 0 && is_white_space(s[0]) {
        trim_start(s.drop_first())
    } else {
        s
    }
}

/// `s` without its trailing whitespace.
pub open spec fn trim_end(s: Seq<char>) -> Seq<char>
    decreases s.len(),
{
    if s.len() > 0 && is_white_space(s.last()) {
        trim_end(s.drop_last())
    } else {
        s
    }
}

/// `s` without leading and trailing whitespace.
pub open spec fn trim(s: Seq<char>) -> Seq<char> {
    trim_end(trim_start(s))
}

/// Whether `pat` occurs in `s` at position `i`.
pub open spec fn occurs_at(s: Seq<char>, pat: Seq<char>, i: int) -> bool {
    0 <= i && i + pat.len() <= s.len() && s.subrange(i, i + pat.len()) == pat
}

/// Whether `pat` occurs anywhere in `s`.
pub open spec fn contains_text(s: Seq<char>, pat: Seq<char>) -> bool {
    exists|i: int| occurs_at(s, pat, i)
}

/// `s` with every match of the non-empty pattern `from` replaced by `to`,
/// matches taken from left to right without overlapping.
pub open spec fn replace_all(s: Seq<char>, from: Seq<char>, to: Seq<char>) -> Seq<char>
    decreases s.len(),
{
    if from.len() == 0 || s.len() < from.len() {
        s
    } else if s.subrange(0, from.len() as int) == from {
        to + replace_all(s.subrange(from.len() as int, s.len() as int), from, to)
    } else {
        seq![s[0]] + replace_all(s.drop_first(), from, to)
    }
}

/// `str::trim`: the slice of `s` without leading and trailing whitespace,
/// whitespace being the characters with the Unicode `White_Space` property.
#[verifier::external_body]
pub(crate) fn trim_str(s: &str) -> (res: &str)
    ensures
        res@ == trim(s@),
{
    s.trim()
}

/// `str::replace` with a non-empty string pattern: a new string in which each
/// match of `from`, found from left to right without overlap, is replaced by
/// `to`. (An empty pattern, which `str::replace` treats otherwise, is left out.)
#[verifier::external_body]
pub(crate) fn replace_str(s: &str, from: &str, to: &str) -> (res: String)
    requires
        from@.len() > 0,
    ensures
        res@ == replace_all(s@, from@, to@),
{
    s.replace(from, to)
}

/// The error of `std::str::from_utf8`.
#[verifier::external_type_specification]
#[verifier::external_body]
pub struct ExUtf8Error(core::str::Utf8Error);

/// `std::str::from_utf8`: succeeds exactly when the bytes are well-formed
/// UTF-8, and then yields the characters they encode.
#[verifier::external_body]
pub(crate) fn str_from_utf8(bytes: &[u8]) -> (res: Result<&str, core::str::Utf8Error>)
    ensures
        res is Ok <==> vstd::utf8::valid_utf8(bytes@),
        res matches Ok(s) ==> s@ == vstd::utf8::decode_utf8(bytes@),
{
    core::str::from_utf8(bytes)
}

} // verus!
