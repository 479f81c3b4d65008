//! Text: equality and order of names, trimming, searching, and the decimal and hexadecimal
//! notation of numbers.
//!
//! Contracts speak of a string as the sequence of its characters. Names are ordered by the
//! bytes of their UTF-8 form.

use vstd::prelude::*;
use vstd::utf8::*;
use vstd::string::*;
use crate::number::Single;

verus! {

/// `a` and `b` agree before position `i`, and there `a` ends or has the smaller byte.
pub open spec fn parts_at(a: Seq<u8>, b: Seq<u8>, i: int) -> bool {
    &&& 0 <= i <= a.len()
    &&& i < b.len()
    &&& forall|j: int| 0 <= j < i ==> #[trigger] a[j] == b[j]
    &&& i == a.len() || a[i] < b[i]
}

/// Lexicographic order of byte strings.
pub open spec fn bytes_before(a: Seq<u8>, b: Seq<u8>) -> bool {
    exists|i: int| parts_at(a, b, i)
}

/// The order of names: that of their UTF-8 bytes.
pub open spec fn name_before(a: Seq<char>, b: Seq<char>) -> bool {
    bytes_before(encode_utf8(a), encode_utf8(b))
}

/// No byte string comes before itself.
pub proof fn bytes_before_irreflexive(a: Seq<u8>)
    ensures
        !bytes_before(a, a),
{
}

/// The order of byte strings is transitive.
pub proof fn bytes_before_transitive(a: Seq<u8>, b: Seq<u8>, c: Seq<u8>)
    requires
        bytes_before(a, b),
        bytes_before(b, c),
    ensures
        bytes_before(a, c),
{
    let i = choose|i: int| parts_at(a, b, i);
    let j = choose|j: int| parts_at(b, c, j);
    let k = if i < j { i } else { j };
    assert(parts_at(a, c, k)) by {
        assert forall|n: int| 0 <= n < k implies #[trigger] a[n] == c[n] by {
            assert(a[n] == b[n]);
            assert(b[n] == c[n]);
        }
        if k < i {
            assert(a[k] == b[k]);
        }
        if k < j {
            assert(b[k] == c[k]);
        }
    }
}

/// Two names with the same UTF-8 bytes are the same name.
pub proof fn encoding_is_injective(a: Seq<char>, b: Seq<char>)
    requires
        encode_utf8(a) == encode_utf8(b),
    ensures
        a == b,
{
    encode_utf8_decode_utf8(a);
    encode_utf8_decode_utf8(b);
}

/// Names have a strict order: no name comes before itself, and the order is transitive.
pub proof fn names_strictly_ordered(a: Seq<char>, b: Seq<char>, c: Seq<char>)
    ensures
        !name_before(a, a),
        name_before(a, b) && name_before(b, c) ==> name_before(a, c),
        name_before(a, b) ==> a != b && !name_before(b, a),
{
    bytes_before_irreflexive(encode_utf8(a));
    if name_before(a, b) && name_before(b, c) {
        bytes_before_transitive(encode_utf8(a), encode_utf8(b), encode_utf8(c));
    }
    if name_before(a, b) && name_before(b, a) {
        bytes_before_transitive(encode_utf8(a), encode_utf8(b), encode_utf8(a));
    }
}

proof fn bytes_are_comparable(a: Seq<u8>, b: Seq<u8>, i: int)
    requires
        0 <= i <= a.len(),
        i <= b.len(),
        forall|j: int| 0 <= j < i ==> #[trigger] a[j] == b[j],
    ensures
        a == b || bytes_before(a, b) || bytes_before(b, a),
    decreases a.len() - i,
{
    if i == a.len() && i == b.len() {
        assert(a =~= b);
    } else if i < a.len() && i < b.len() && a[i] == b[i] {
        bytes_are_comparable(a, b, i + 1);
    } else if i == a.len() || (i < b.len() && a[i] < b[i]) {
        assert(parts_at(a, b, i));
    } else {
        assert(parts_at(b, a, i));
    }
}

/// Of two different names one comes before the other.
pub proof fn names_are_comparable(a: Seq<char>, b: Seq<char>)
    ensures
        a == b || name_before(a, b) || name_before(b, a),
{
    bytes_are_comparable(encode_utf8(a), encode_utf8(b), 0);
    if encode_utf8(a) == encode_utf8(b) {
        encoding_is_injective(a, b);
    }
}

/// How one name stands to another.
#[derive(Clone, Copy, PartialEq, Eq, Structural)]
pub enum Place {
    Before,
    Same,
    After,
}

/// Where the name `a` stands to the name `b`.
pub fn place(a: &str, b: &str) -> (p: Place)
    ensures
        p == Place::Before <==> name_before(a@, b@),
        p == Place::Same <==> a@ == b@,
        p == Place::After <==> name_before(b@, a@),
{
    let x = a.as_bytes();
    let y = b.as_bytes();
    let mut i: usize = 0;
    while i < x.len() && i < y.len() && x[i] == y[i]
        invariant
            i <= x.len(),
            i <= y.len(),
            forall|j: int| 0 <= j < i ==> #[trigger] x[j] == y[j],
        decreases x.len() - i,
    {
        i += 1;
    }
    proof {
        names_strictly_ordered(a@, b@, a@);
        names_strictly_ordered(b@, a@, b@);
    }
    if i < x.len() {
        if i < y.len() {
            if x[i] < y[i] {
                assert(parts_at(x@, y@, i as int));
                Place::Before
            } else {
                assert(parts_at(y@, x@, i as int));
                Place::After
            }
        } else {
            assert(parts_at(y@, x@, i as int));
            Place::After
        }
    } else if i < y.len() {
        assert(parts_at(x@, y@, i as int));
        Place::Before
    } else {
        proof {
            assert(x@ =~= y@);
            encoding_is_injective(a@, b@);
        }
        Place::Same
    }
}

/// Whether two strings hold the same characters.
pub fn same_text(a: &str, b: &str) -> (same: bool)
    ensures
        same == (a@ == b@),
{
    match place(a, b) {
        Place::Same => true,
        _ => false,
    }
}

/// Characters that count as white space.
pub open spec fn white(c: char) -> bool {
    ||| '\u{9}' <= c <= '\u{d}'
    ||| c == ' '
    ||| c == '\u{85}'
    ||| c == '\u{a0}'
    ||| c == '\u{1680}'
    ||| '\u{2000}' <= c <= '\u{200a}'
    ||| c == '\u{2028}'
    ||| c == '\u{2029}'
    ||| c == '\u{202f}'
    ||| c == '\u{205f}'
    ||| c == '\u{3000}'
}

/// Whether a character counts as white space.
pub fn is_white(c: char) -> (r: bool)
    ensures
        r == white(c),
{
    ('\u{9}' <= c && c <= '\u{d}') || c == ' ' || c == '\u{85}' || c == '\u{a0}' || c == '\u{1680}'
        || ('\u{2000}' <= c && c <= '\u{200a}') || c == '\u{2028}' || c == '\u{2029}' || c
        == '\u{202f}' || c == '\u{205f}' || c == '\u{3000}'
}

/// Whether a text holds nothing but white space.
pub fn is_blank(t: &str) -> (r: bool)
    ensures
        r == (forall|i: int| 0 <= i < t@.len() ==> white(#[trigger] t@[i])),
{
    let n: usize = t.unicode_len();
    let mut i: usize = 0;
    while i < n
        invariant
            i <= n,
            n == t@.len(),
            forall|j: int| 0 <= j < i ==> white(#[trigger] t@[j]),
        decreases n - i,
    {
        if !is_white(t.get_char(i)) {
            assert(!white(t@[i as int]));
            return false;
        }
        i += 1;
    }
    true
}

/// A text without the white space at its ends.
pub open spec fn trimmed(t: Seq<char>) -> Seq<char>
    decreases t.len(),
{
    if t.len() > 0 && white(t[0]) {
        trimmed(t.drop_first())
    } else if t.len() > 0 && white(t.last()) {
        trimmed(t.drop_last())
    } else {
        t
    }
}

/// The text without the white space at its ends.
pub fn trim(t: &str) -> (r: String)
    ensures
        r@ == trimmed(t@),
{
    let n: usize = t.unicode_len();
    let mut i: usize = 0;
    assert(t@.subrange(0, n as int) =~= t@);
    while i < n && is_white(t.get_char(i))
        invariant
            i <= n,
            n == t@.len(),
            trimmed(t@.subrange(i as int, n as int)) == trimmed(t@),
        decreases n - i,
    {
        assert(t@.subrange(i as int, n as int).drop_first() =~= t@.subrange(i + 1, n as int));
        i += 1;
    }
    let mut k: usize = n;
    while k > i && is_white(t.get_char(k - 1))
        invariant
            i <= k <= n,
            n == t@.len(),
            i < k ==> !white(t@[i as int]),
            trimmed(t@.subrange(i as int, k as int)) == trimmed(t@),
        decreases k,
    {
        assert(t@.subrange(i as int, k as int).drop_last() =~= t@.subrange(i as int, k - 1));
        k -= 1;
    }
    t.substring_char(i, k).to_owned()
}

/// What an optional string holds.
pub open spec fn optional(t: Option<String>) -> Option<Seq<char>> {
    match t {
        Some(s) => Some(s@),
        None => None,
    }
}

/// The same optional string, once more.
pub fn copy_optional(t: &Option<String>) -> (r: Option<String>)
    ensures
        optional(r) == optional(*t),
{
    match t {
        Some(s) => Some(s.clone()),
        None => None,
    }
}

/// The same strings, in a vector of their own.
pub fn copy_texts(v: &[String]) -> (r: Vec<String>)
    ensures
        texts(r@) == texts(v@),
{
    let mut r: Vec<String> = Vec::new();
    let mut i: usize = 0;
    while i < v.len()
        invariant
            i <= v.len(),
            texts(r@) =~= texts(v@).take(i as int),
        decreases v.len() - i,
    {
        let ghost before = r@;
        let t = v[i].clone();
        r.push(t);
        i += 1;
        assert(texts(r@) =~= texts(before).push(t@));
        assert(texts(v@).take(i as int) =~= texts(v@).take(i - 1).push(t@));
    }
    assert(texts(v@).take(v.len() as int) =~= texts(v@));
    r
}

/// The characters of each string.
pub open spec fn texts(v: Seq<String>) -> Seq<Seq<char>> {
    Seq::new(v.len(), |i: int| v[i]@)
}

/// The decimal notation of `n`.
pub open spec fn digits(n: nat) -> Seq<char>
    decreases n,
{
    let last = seq![digit(n % 10)];
    if n < 10 {
        last
    } else {
        digits(n / 10) + last
    }
}

/// Different numbers are written differently.
pub proof fn digits_are_distinct(a: nat, b: nat)
    ensures
        a != b ==> digits(a) != digits(b),
    decreases a,
{
    reveal_strlit("0123456789");
    if digits(a) == digits(b) {
        let x = digits(a);
        assert(x.last() == digit(a % 10));
        assert(digits(b).last() == digit(b % 10));
        assert(a % 10 == b % 10);
        if a >= 10 {
            assert(x.drop_last() =~= digits(a / 10));
            if b >= 10 {
                assert(digits(b).drop_last() =~= digits(b / 10));
                digits_are_distinct(a / 10, b / 10);
            } else {
                digits_not_empty(a / 10);
            }
        } else if b >= 10 {
            digits_not_empty(b / 10);
        }
    }
}

proof fn digits_not_empty(a: nat)
    ensures
        digits(a).len() > 0,
{
}

/// The character of a digit.
pub open spec fn digit(d: nat) -> char {
    "0123456789"@[d as int]
}

fn digit_text(d: u64) -> (t: &'static str)
    requires
        d < 10,
    ensures
        t@ == seq![digit(d as nat)],
{
    proof {
        reveal_strlit("0123456789");
        reveal_strlit("0");
        reveal_strlit("1");
        reveal_strlit("2");
        reveal_strlit("3");
        reveal_strlit("4");
        reveal_strlit("5");
        reveal_strlit("6");
        reveal_strlit("7");
        reveal_strlit("8");
        reveal_strlit("9");
    }
    match d {
        0 => "0",
        1 => "1",
        2 => "2",
        3 => "3",
        4 => "4",
        5 => "5",
        6 => "6",
        7 => "7",
        8 => "8",
        _ => "9",
    }
}

/// `n` in decimal notation.
pub fn decimal(n: u64) -> (t: String)
    ensures
        t@ == digits(n as nat),
    decreases n,
{
    if n < 10 {
        digit_text(n).to_owned()
    } else {
        let mut t = decimal(n / 10);
        t.append(digit_text(n % 10));
        t
    }
}

/// The decimal notation of a number with a sign.
pub open spec fn signed_digits(n: int) -> Seq<char> {
    if n < 0 {
        "-"@ + digits((-n) as nat)
    } else {
        digits(n as nat)
    }
}

/// `n` in decimal notation.
pub fn signed_decimal(n: i32) -> (t: String)
    ensures
        t@ == signed_digits(n as int),
{
    if n < 0 {
        glue("-", &decimal((-(n as i64)) as u64))
    } else {
        decimal(n as u64)
    }
}

/// The characters of a text, one by one.
pub fn characters(t: &str) -> (v: Vec<char>)
    ensures
        v@ == t@,
{
    let mut v: Vec<char> = Vec::new();
    for c in it: t.chars()
        invariant
            it.seq() == t@,
            v@ == t@.take(it.index()),
    {
        v.push(c);
        assert(t@.take(it.index() + 1) =~= t@.take(it.index()).push(c));
    }
    assert(t@.take(t@.len() as int) =~= t@);
    v
}

/// `part` stands in `t` at position `i`.
pub open spec fn stands_at(t: Seq<char>, part: Seq<char>, i: int) -> bool {
    0 <= i && i + part.len() <= t.len() && t.subrange(i, i + part.len()) == part
}

/// Whether `t` holds `part`.
pub open spec fn holds(t: Seq<char>, part: Seq<char>) -> bool {
    exists|i: int| stands_at(t, part, i)
}

/// Whether the characters `from..to` of `v` are those of `part`.
pub fn is_part(v: &[char], from: usize, to: usize, part: &[char]) -> (r: bool)
    requires
        from <= to <= v.len(),
    ensures
        r == (v@.subrange(from as int, to as int) == part@),
{
    let ghost s = v@.subrange(from as int, to as int);
    if to - from != part.len() {
        assert(s.len() != part@.len());
        return false;
    }
    let mut i: usize = 0;
    while i < part.len()
        invariant
            i <= part.len(),
            from + part.len() == to,
            to <= v.len(),
            s == v@.subrange(from as int, to as int),
            forall|j: int| 0 <= j < i ==> #[trigger] s[j] == part@[j],
        decreases part.len() - i,
    {
        if v[from + i] != part[i] {
            assert(s[i as int] != part@[i as int]);
            return false;
        }
        assert(s[i as int] == part@[i as int]);
        i += 1;
    }
    assert(s =~= part@);
    true
}

/// Whether the text `t` holds the text `part`.
pub fn contains(t: &str, part: &str) -> (r: bool)
    ensures
        r == holds(t@, part@),
{
    let v = characters(t);
    let p = characters(part);
    if p.len() > v.len() {
        return false;
    }
    let last: usize = v.len() - p.len();
    let mut i: usize = 0;
    while i <= last
        invariant
            i <= last + 1,
            last + p.len() == v.len(),
            v@ == t@,
            p@ == part@,
            forall|j: int| 0 <= j < i ==> !#[trigger] stands_at(t@, part@, j),
        decreases last + 1 - i,
    {
        if is_part(&v, i, i + p.len(), &p) {
            assert(stands_at(t@, part@, i as int));
            return true;
        }
        assert(!stands_at(t@, part@, i as int));
        if i == last {
            assert forall|j: int| !#[trigger] stands_at(t@, part@, j) by {}
            return false;
        }
        i += 1;
    }
    false
}

/// The texts `a` and `b`, one after the other.
pub fn glue(a: &str, b: &str) -> (t: String)
    ensures
        t@ == a@ + b@,
{
    let mut t = a.to_owned();
    t.append(b);
    t
}

/// The texts `a`, `b` and `c`, one after the other.
pub fn glue3(a: &str, b: &str, c: &str) -> (t: String)
    ensures
        t@ == a@ + b@ + c@,
{
    let mut t = a.to_owned();
    t.append(b);
    t.append(c);
    t
}

/// How a figure is written where it stands in a text.
#[derive(Clone, Copy, Debug, PartialEq, Eq, Structural)]
pub enum Style {
    /// As short as it can be.
    Plain,
    /// As short as it can be, with its sign.
    Signed,
    /// In hertz, or in kilohertz from 1 kHz on, with up to two decimals.
    Frequency,
    /// In decibels, with its sign and one decimal.
    Gain,
    /// With up to two decimals.
    Quality,
    /// Like a frequency, filled up on the left to eight characters.
    FrequencyCell,
    /// Like a gain, filled up on the left to eight characters.
    GainCell,
}

/// A part of a text: words, or a figure that the terminal writes in the given style.
#[derive(Debug)]
pub enum Piece {
    Words(String),
    Figure(Style, Single),
}

/// What a [`Piece`] holds.
pub ghost enum PieceView {
    Words(Seq<char>),
    Figure(Style, Single),
}

impl View for Piece {
    type V = PieceView;

    open spec fn view(&self) -> PieceView {
        match self {
            Piece::Words(t) => PieceView::Words(t@),
            Piece::Figure(s, x) => PieceView::Figure(*s, *x),
        }
    }
}

/// The texts, one after the other, with `between` between them.
pub open spec fn joined(v: Seq<Seq<char>>, between: Seq<char>) -> Seq<char>
    decreases v.len(),
{
    if v.len() == 0 {
        Seq::empty()
    } else if v.len() == 1 {
        v[0]
    } else {
        joined(v.drop_last(), between) + between + v.last()
    }
}

/// The texts, one after the other, with `between` between them.
pub fn join_texts(v: &[String], between: &str) -> (t: String)
    ensures
        t@ == joined(texts(v@), between@),
{
    let mut t = String::new();
    if v.len() == 0 {
        assert(t@ =~= Seq::empty());
        return t;
    }
    let ghost s = texts(v@);
    t.append(&v[0]);
    assert(t@ =~= s[0]);
    let mut i: usize = 1;
    assert(s.take(1)[0] == s[0]);
    while i < v.len()
        invariant
            1 <= i <= v.len(),
            s == texts(v@),
            t@ == joined(s.take(i as int), between@),
        decreases v.len() - i,
    {
        t.append(between);
        t.append(&v[i]);
        assert(s.take(i + 1).drop_last() =~= s.take(i as int));
        i += 1;
    }
    assert(s.take(v.len() as int) =~= s);
    t
}

/// What the pieces hold, one by one.
pub open spec fn pieces(v: Seq<Piece>) -> Seq<PieceView> {
    Seq::new(v.len(), |i: int| v[i]@)
}

/// The number that decimal digits stand for.
pub open spec fn reading(t: Seq<char>) -> int
    decreases t.len(),
{
    if t.len() == 0 {
        0
    } else {
        10 * reading(t.drop_last()) + (t.last() as int - 48)
    }
}

/// The decimal notation of a number reads as that number, is made of the digits from `0` to
/// `9`, and has no leading zero.
pub proof fn digits_read_back(n: nat)
    ensures
        reading(digits(n)) == n,
        digits(n).len() > 0,
        forall|i: int| 0 <= i < digits(n).len() ==> '0' <= #[trigger] digits(n)[i] <= '9',
        n > 0 ==> digits(n)[0] != '0',
    decreases n,
{
    reveal_strlit("0123456789");
    let t = digits(n);
    let last = digit(n % 10);
    assert(last as int == 48 + n % 10) by {
        let d = n % 10;
        assert(0 <= d < 10);
    }
    if n < 10 {
        assert(t =~= seq![last]);
        assert(t.drop_last() =~= Seq::empty());
        assert(reading(t.drop_last()) == 0);
    } else {
        digits_read_back(n / 10);
        assert(t =~= digits(n / 10).push(last));
        assert(t.drop_last() =~= digits(n / 10));
        assert(t[0] == digits(n / 10)[0]);
    }
}

/// Trimming takes white space off both ends and nothing else: the rest begins and ends with
/// something else, and what is taken off is white.
pub proof fn trimming_takes_white_ends(t: Seq<char>) -> (k: int)
    ensures
        0 <= k,
        k + trimmed(t).len() <= t.len(),
        trimmed(t) == t.subrange(k, k + trimmed(t).len()),
        forall|i: int| 0 <= i < k ==> white(#[trigger] t[i]),
        forall|i: int| k + trimmed(t).len() <= i < t.len() ==> white(#[trigger] t[i]),
        trimmed(t).len() > 0 ==> !white(trimmed(t)[0]) && !white(trimmed(t).last()),
    decreases t.len(),
{
    if t.len() > 0 && white(t[0]) {
        let d = t.drop_first();
        let k = trimming_takes_white_ends(d);
        let n = trimmed(t).len();
        assert(t.subrange(k + 1, k + 1 + n) =~= d.subrange(k, k + n));
        assert forall|i: int| 0 <= i < k + 1 implies white(#[trigger] t[i]) by {
            if i > 0 {
                assert(d[i - 1] == t[i]);
            }
        }
        assert forall|i: int| k + 1 + n <= i < t.len() implies white(#[trigger] t[i]) by {
            assert(d[i - 1] == t[i]);
        }
        k + 1
    } else if t.len() > 0 && white(t.last()) {
        let d = t.drop_last();
        let k = trimming_takes_white_ends(d);
        let n = trimmed(t).len();
        assert(t.subrange(k, k + n) =~= d.subrange(k, k + n));
        assert forall|i: int| 0 <= i < k implies white(#[trigger] t[i]) by {
            assert(d[i] == t[i]);
        }
        assert forall|i: int| k + n <= i < t.len() implies white(#[trigger] t[i]) by {
            if i < d.len() {
                assert(d[i] == t[i]);
            }
        }
        k
    } else {
        assert(t.subrange(0, t.len() as int) =~= t);
        0
    }
}

/// Joined texts follow one another with the separator between each two: one more text comes
/// behind the separator, and a single one stands alone.
pub proof fn joined_texts_follow_one_another(v: Seq<Seq<char>>, x: Seq<char>, between: Seq<char>)
    ensures
        joined(seq![x], between) == x,
        v.len() > 0 ==> joined(v.push(x), between) == joined(v, between) + between + x,
        joined(Seq::empty(), between).len() == 0,
{
    assert(v.push(x).drop_last() =~= v);
}

/// A negative number is written as a minus sign and its size.
pub proof fn signs_are_written(n: int)
    ensures
        n >= 0 ==> reading(signed_digits(n)) == n,
        n < 0 ==> signed_digits(n)[0] == '-' && reading(signed_digits(n).skip(1)) == -n,
{
    if n >= 0 {
        digits_read_back(n as nat);
    } else {
        digits_read_back((-n) as nat);
        reveal_strlit("-");
        assert(signed_digits(n).skip(1) =~= digits((-n) as nat));
    }
}

/// Of the ASCII characters the space and the five controls from tab to carriage return are white
/// space; letters, digits, and punctuation are not.
pub proof fn which_ascii_characters_are_white(c: char)
    requires
        (c as int) < 128,
    ensures
        white(c) <==> 9 <= c as int <= 13 || c as int == 32,
{
}

} // verus!
