//! String helpers stated over the `Seq<char>` view of `str` and `String`:
//! equality, construction, whitespace, hexadecimal and decimal renderings.

use vstd::prelude::*;
use vstd::string::StringExecFns;
use vstd::string::StrSliceExecFns;
use vstd::string::StringSliceAdditionalSpecFns;

verus! {

broadcast use vstd::utf8::encode_utf8_decode_utf8;

/// `String::push` appends one character at the end of the string.
pub assume_specification[ String::push ](s: &mut String, ch: char)
    ensures
        final(s)@ == old(s)@.push(ch),
;

/// Character-sequence equality of two string slices.
pub fn str_eq(a: &str, b: &str) -> (r: bool)
    ensures
        r == (a@ == b@),
{
    let x = a.as_bytes();
    let y = b.as_bytes();
    if x.len() != y.len() {
        return false;
    }
    let mut i: usize = 0;
    while i < x.len()
        invariant
            x@ == a.spec_bytes(),
            y@ == b.spec_bytes(),
            x@.len() == y@.len(),
            i <= x@.len(),
            forall|j: int| 0 <= j < i ==> x@[j] == y@[j],
        decreases x@.len() - i,
    {
        if x[i] != y[i] {
            assert(x@[i as int] != y@[i as int]);
            assert(x@ != y@);
            return false;
        }
        i += 1;
    }
    assert(x@ =~= y@);
    assert(a@ == vstd::utf8::decode_utf8(a.spec_bytes()));
    assert(b@ == vstd::utf8::decode_utf8(b.spec_bytes()));
    true
}

/// A fresh owned copy of a string slice.
pub fn owned(s: &str) -> (r: String)
    ensures
        r@ == s@,
{
    String::from_str(s)
}

/// The characters of a string slice, in order.
pub fn chars_of(s: &str) -> (r: Vec<char>)
    ensures
        r@ == s@,
{
    let n = s.unicode_len();
    let mut out: Vec<char> = Vec::new();
    let mut i: usize = 0;
    while i < n
        invariant
            n == s@.len(),
            i <= n,
            out@ == s@.take(i as int),
        decreases n - i,
    {
        let c = s.get_char(i);
        out.push(c);
        assert(s@.take(i + 1) =~= s@.take(i as int).push(c));
        i += 1;
    }
    assert(s@.take(n as int) =~= s@);
    out
}

/// A `String` holding exactly the given characters.
pub fn string_of_chars(cs: &Vec<char>) -> (r: String)
    ensures
        r@ == cs@,
{
    let mut out = String::new();
    let mut i: usize = 0;
    while i < cs.len()
        invariant
            i <= cs@.len(),
            out@ == cs@.take(i as int),
        decreases cs@.len() - i,
    {
        out.push(cs[i]);
        assert(cs@.take(i + 1) =~= cs@.take(i as int).push(cs@[i as int]));
        i += 1;
    }
    assert(cs@.take(cs@.len() as int) =~= cs@);
    out
}

/// The Unicode `White_Space` characters, as `char::is_whitespace` documents them.
pub open spec fn is_ws(c: char) -> bool {
    ||| ('\u{9}' <= c && c <= '\u{d}')
    ||| c == ' '
    ||| c == '\u{85}'
    ||| c == '\u{a0}'
    ||| c == '\u{1680}'
    ||| ('\u{2000}' <= c && c <= '\u{200a}')
    ||| c == '\u{2028}'
    ||| c == '\u{2029}'
    ||| c == '\u{202f}'
    ||| c == '\u{205f}'
    ||| c == '\u{3000}'
}

/// A text is blank when trimming it leaves nothing: every character is white space.
pub open spec fn is_blank(s: Seq<char>) -> bool {
    forall|i: int| 0 <= i < s.len() ==> is_ws(#[trigger] s[i])
}

/// Whether `c` is white space.
pub fn char_is_ws(c: char) -> (r: bool)
    ensures
        r == is_ws(c),
{
    ('\u{9}' <= c && c <= '\u{d}') || c == ' ' || c == '\u{85}' || c == '\u{a0}'
        || c == '\u{1680}' || ('\u{2000}' <= c && c <= '\u{200a}') || c == '\u{2028}'
        || c == '\u{2029}' || c == '\u{202f}' || c == '\u{205f}' || c == '\u{3000}'
}

/// Whether a string is empty once trimmed.
pub fn str_is_blank(s: &str) -> (r: bool)
    ensures
        r == is_blank(s@),
{
    let cs = chars_of(s);
    let mut i: usize = 0;
    while i < cs.len()
        invariant
            cs@ == s@,
            i <= cs@.len(),
            forall|j: int| 0 <= j < i ==> is_ws(#[trigger] s@[j]),
        decreases cs@.len() - i,
    {
        if !char_is_ws(cs[i]) {
            return false;
        }
        i += 1;
    }
    true
}

/// `s` without its leading white space.
pub open spec fn trim_front(s: Seq<char>) -> Seq<char>
    decreases s.len(),
{
    if s.len() > 0 && is_ws(s[0]) {
        trim_front(s.drop_first())
    } else {
        s
    }
}

/// `s` without its trailing white space.
pub open spec fn trim_back(s: Seq<char>) -> Seq<char>
    decreases s.len(),
{
    if s.len() > 0 && is_ws(s.last()) {
        trim_back(s.drop_last())
    } else {
        s
    }
}

/// `s` without leading and trailing white space, as `str::trim` gives it.
pub open spec fn trimmed(s: Seq<char>) -> Seq<char> {
    trim_back(trim_front(s))
}

/// The characters of `s` with leading and trailing white space removed.
pub fn trim_chars(s: &str) -> (r: Vec<char>)
    ensures
        r@ == trimmed(s@),
{
    let cs = chars_of(s);
    let n = cs.len();
    let mut a: usize = 0;
    assert(s@.subrange(0, n as int) =~= s@);
    while a < n && char_is_ws(cs[a])
        invariant
            cs@ == s@,
            n == cs@.len(),
            a <= n,
            trim_front(s@) == trim_front(s@.subrange(a as int, n as int)),
        decreases n - a,
    {
        assert(s@.subrange(a as int, n as int).drop_first() =~= s@.subrange(a + 1, n as int));
        a += 1;
    }
    assert(trim_front(s@) == s@.subrange(a as int, n as int));
    let mut b: usize = n;
    while b > a && char_is_ws(cs[b - 1])
        invariant
            cs@ == s@,
            n == cs@.len(),
            a <= b <= n,
            trim_back(s@.subrange(a as int, n as int)) == trim_back(
                s@.subrange(a as int, b as int),
            ),
        decreases b - a,
    {
        assert(s@.subrange(a as int, b as int).drop_last() =~= s@.subrange(a as int, b - 1));
        b -= 1;
    }
    assert(trim_back(s@.subrange(a as int, b as int)) == s@.subrange(a as int, b as int));
    let mut out: Vec<char> = Vec::new();
    let mut i: usize = a;
    while i < b
        invariant
            cs@ == s@,
            a <= i <= b <= n == cs@.len(),
            out@ == s@.subrange(a as int, i as int),
        decreases b - i,
    {
        out.push(cs[i]);
        assert(s@.subrange(a as int, i + 1) =~= s@.subrange(a as int, i as int).push(s@[i as int]));
        i += 1;
    }
    out
}

/// ASCII upper-case letters become lower case; every other character stays.
pub open spec fn ascii_lower_char(c: char) -> char {
    if 'A' <= c && c <= 'Z' {
        ((c as u32) + 32) as char
    } else {
        c
    }
}

/// `s` with ASCII letters lowered, as `to_ascii_lowercase` gives it.
pub open spec fn ascii_lower(s: Seq<char>) -> Seq<char> {
    Seq::new(s.len(), |i: int| ascii_lower_char(s[i]))
}

/// The ASCII lower-case form of one character.
pub fn lower_char(c: char) -> (r: char)
    ensures
        r == ascii_lower_char(c),
{
    if 'A' <= c && c <= 'Z' {
        let b: u8 = c as u8;
        (b + 32) as char
    } else {
        c
    }
}

/// A `String` of the characters with ASCII letters lowered.
pub fn lower_chars(cs: &Vec<char>) -> (r: String)
    ensures
        r@ == ascii_lower(cs@),
{
    let mut out = String::new();
    let mut i: usize = 0;
    while i < cs.len()
        invariant
            i <= cs@.len(),
            out@ == ascii_lower(cs@).take(i as int),
        decreases cs@.len() - i,
    {
        out.push(lower_char(cs[i]));
        assert(ascii_lower(cs@).take(i + 1) =~= ascii_lower(cs@).take(i as int).push(
            ascii_lower_char(cs@[i as int]),
        ));
        i += 1;
    }
    assert(ascii_lower(cs@).take(cs@.len() as int) =~= ascii_lower(cs@));
    out
}

/// `str::to_ascii_lowercase`.
pub fn ascii_lowercase(s: &str) -> (r: String)
    ensures
        r@ == ascii_lower(s@),
{
    let cs = chars_of(s);
    lower_chars(&cs)
}

/// Lowercase hexadecimal digit for a nibble.
pub open spec fn hex_digit(n: u64) -> char {
    if n < 10 {
        (('0' as u64) + n) as char
    } else {
        (('a' as u64) + (n - 10)) as char
    }
}

/// The `width` low nibbles of `x` in lowercase hexadecimal, most significant first.
pub open spec fn hex_lower(x: u64, width: nat) -> Seq<char> {
    Seq::new(width, |i: int| hex_digit((x >> (4 * (width - 1 - i)) as u64) & 0xf))
}

/// The digit character for a nibble.
pub fn hex_char(n: u64) -> (c: char)
    requires
        n < 16,
    ensures
        c == hex_digit(n),
{
    match n {
        0 => '0',
        1 => '1',
        2 => '2',
        3 => '3',
        4 => '4',
        5 => '5',
        6 => '6',
        7 => '7',
        8 => '8',
        9 => '9',
        10 => 'a',
        11 => 'b',
        12 => 'c',
        13 => 'd',
        14 => 'e',
        _ => 'f',
    }
}

/// Appends the `width` low nibbles of `x` in lowercase hexadecimal.
pub fn push_hex(out: &mut String, x: u64, width: usize)
    requires
        width <= 16,
    ensures
        final(out)@ == old(out)@ + hex_lower(x, width as nat),
{
    let ghost start = out@;
    let mut i: usize = 0;
    while i < width
        invariant
            i <= width <= 16,
            out@ == start + hex_lower(x, width as nat).take(i as int),
        decreases width - i,
    {
        let shift: u64 = (4 * (width - 1 - i)) as u64;
        let nib = (x >> shift) & 0xf;
        assert(nib < 16) by (bit_vector)
            requires
                nib == (x >> shift) & 0xf,
        ;
        let c = hex_char(nib);
        out.push(c);
        assert(hex_lower(x, width as nat).take(i + 1) =~= hex_lower(x, width as nat).take(
            i as int,
        ).push(c));
        i += 1;
    }
    assert(hex_lower(x, width as nat).take(width as int) =~= hex_lower(x, width as nat));
}

/// Uppercase hexadecimal digit for a nibble.
pub open spec fn hex_digit_upper(n: u64) -> char {
    if n < 10 {
        (('0' as u64) + n) as char
    } else {
        (('A' as u64) + (n - 10)) as char
    }
}

/// The `width` low nibbles of `x` in uppercase hexadecimal, most significant first.
pub open spec fn hex_upper(x: u64, width: nat) -> Seq<char> {
    Seq::new(width, |i: int| hex_digit_upper((x >> (4 * (width - 1 - i)) as u64) & 0xf))
}

fn hex_char_upper(n: u64) -> (c: char)
    requires
        n < 16,
    ensures
        c == hex_digit_upper(n),
{
    match n {
        0 => '0',
        1 => '1',
        2 => '2',
        3 => '3',
        4 => '4',
        5 => '5',
        6 => '6',
        7 => '7',
        8 => '8',
        9 => '9',
        10 => 'A',
        11 => 'B',
        12 => 'C',
        13 => 'D',
        14 => 'E',
        _ => 'F',
    }
}

/// Appends the `width` low nibbles of `x` in uppercase hexadecimal.
pub fn push_hex_upper(out: &mut String, x: u64, width: usize)
    requires
        width <= 16,
    ensures
        final(out)@ == old(out)@ + hex_upper(x, width as nat),
{
    let ghost start = out@;
    let mut i: usize = 0;
    while i < width
        invariant
            i <= width <= 16,
            out@ == start + hex_upper(x, width as nat).take(i as int),
        decreases width - i,
    {
        let shift: u64 = (4 * (width - 1 - i)) as u64;
        let nib = (x >> shift) & 0xf;
        assert(nib < 16) by (bit_vector)
            requires
                nib == (x >> shift) & 0xf,
        ;
        let c = hex_char_upper(nib);
        out.push(c);
        assert(hex_upper(x, width as nat).take(i + 1) =~= hex_upper(x, width as nat).take(
            i as int,
        ).push(c));
        i += 1;
    }
    assert(hex_upper(x, width as nat).take(width as int) =~= hex_upper(x, width as nat));
}

/// Decimal digit character.
pub open spec fn dec_digit(n: nat) -> char {
    (('0' as nat) + n) as char
}

/// The decimal rendering of a natural number, without leading zeros.
pub open spec fn decimal(n: nat) -> Seq<char>
    decreases n,
{
    if n < 10 {
        seq![dec_digit(n)]
    } else {
        decimal(n / 10).push(dec_digit(n % 10))
    }
}

/// A decimal rendering has one digit below ten and more from ten on.
pub proof fn lemma_decimal_len(n: nat)
    ensures
        decimal(n).len() >= 1,
        n < 10 <==> decimal(n).len() == 1,
    decreases n,
{
    if n >= 10 {
        lemma_decimal_len(n / 10);
    }
}

/// Different numbers have different decimal renderings.
pub proof fn lemma_decimal_injective(a: nat, b: nat)
    requires
        decimal(a) == decimal(b),
    ensures
        a == b,
    decreases a,
{
    lemma_decimal_len(a);
    lemma_decimal_len(b);
    if a < 10 {
        assert(b < 10);
        assert(decimal(a) == seq![dec_digit(a)]);
        assert(decimal(b) == seq![dec_digit(b)]);
        let da = seq![dec_digit(a)];
        let db = seq![dec_digit(b)];
        assert(da[0] == dec_digit(a));
        assert(db[0] == dec_digit(b));
        assert(da == db);
        assert(dec_digit(a) == dec_digit(b));
        assert((('0' as nat) + a) as char == (('0' as nat) + b) as char);
        assert(('0' as nat) + a == ((('0' as nat) + a) as char) as nat);
        assert(('0' as nat) + b == ((('0' as nat) + b) as char) as nat);
    } else {
        assert(b >= 10);
        let da = decimal(a);
        let db = decimal(b);
        assert(da.drop_last() == decimal(a / 10));
        assert(db.drop_last() == decimal(b / 10));
        assert(da.last() == dec_digit(a % 10));
        assert(db.last() == dec_digit(b % 10));
        assert(((('0' as nat) + a % 10) as char) as nat == ('0' as nat) + a % 10);
        assert(((('0' as nat) + b % 10) as char) as nat == ('0' as nat) + b % 10);
        lemma_decimal_injective(a / 10, b / 10);
    }
}

/// Appends the decimal rendering of `n`.
pub fn push_decimal(out: &mut String, n: u64)
    ensures
        final(out)@ == old(out)@ + decimal(n as nat),
    decreases n,
{
    if n >= 10 {
        push_decimal(out, n / 10);
    }
    let d = n % 10;
    let c: char = match d {
        0 => '0',
        1 => '1',
        2 => '2',
        3 => '3',
        4 => '4',
        5 => '5',
        6 => '6',
        7 => '7',
        8 => '8',
        _ => '9',
    };
    assert(c == dec_digit(d as nat));
    out.push(c);
    proof {
        if n >= 10 {
            assert(decimal(n as nat) == decimal((n / 10) as nat).push(dec_digit((n % 10) as nat)));
        }
    }
}

/// Two lowercase hexadecimal digits per byte, in order.
pub open spec fn hex_of_bytes(s: Seq<u8>) -> Seq<char>
    decreases s.len(),
{
    if s.len() == 0 {
        Seq::empty()
    } else {
        hex_of_bytes(s.drop_last()) + hex_lower(s.last() as u64, 2)
    }
}

/// Appends two lowercase hexadecimal digits per byte.
pub fn push_hex_bytes(out: &mut String, bytes: &[u8])
    ensures
        final(out)@ == old(out)@ + hex_of_bytes(bytes@),
{
    let ghost start = out@;
    let mut i: usize = 0;
    while i < bytes.len()
        invariant
            i <= bytes@.len(),
            out@ == start + hex_of_bytes(bytes@.take(i as int)),
        decreases bytes@.len() - i,
    {
        push_hex(out, bytes[i] as u64, 2);
        assert(bytes@.take(i + 1).drop_last() =~= bytes@.take(i as int));
        assert(out@ =~= start + hex_of_bytes(bytes@.take(i + 1)));
        i += 1;
    }
    assert(bytes@.take(i as int) =~= bytes@);
}

} // verus!
