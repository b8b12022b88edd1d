//! Library metadata: the numeric version triple read from a version string.
use vstd::prelude::*;
use vstd::string::*;

verus! {

/// The text before the last dot, split at its dots, and the text after the
/// last dot: the state of splitting `s` at dots after reading it.
pub open spec fn split_scan(s: Seq<char>) -> (Seq<Seq<char>>, Seq<char>)
    decreases s.len(),
{
    if s.len() == 0 {
        (Seq::empty(), Seq::empty())
    } else {
        let (parts, current) = split_scan(s.drop_last());
        if s.last() == '.' {
            (parts.push(current), Seq::empty())
        } else {
            (parts, current.push(s.last()))
        }
    }
}

/// The pieces of `s` between dots, in order, as `str::split('.')` yields
/// them (one empty piece for an empty string).
pub open spec fn split_dots(s: Seq<char>) -> Seq<Seq<char>> {
    split_scan(s).0.push(split_scan(s).1)
}

/// Whether a character is one of the decimal digits `0` to `9`.
pub open spec fn is_digit(c: char) -> bool {
    '0' <= c <= '9'
}

/// The number a sequence of decimal digits denotes.
pub open spec fn decimal_value(digits: Seq<char>) -> nat
    decreases digits.len(),
{
    if digits.len() == 0 {
        0
    } else {
        decimal_value(digits.drop_last()) * 10 + (digits.last() as nat - '0' as nat) as nat
    }
}

/// The digits of a number's text: the text after an optional leading `+`.
pub open spec fn unsigned_digits(text: Seq<char>) -> Seq<char> {
    if text.len() > 0 && text[0] == '+' {
        text.drop_first()
    } else {
        text
    }
}

/// The `u32` that `text` denotes as `u32::from_str` reads it: an optional
/// `+`, then at least one decimal digit and nothing else, with a value that
/// fits in a `u32`; `None` for any other text.
pub open spec fn parse_u32(text: Seq<char>) -> Option<u32> {
    let digits = unsigned_digits(text);
    if digits.len() > 0 && (forall|i: int| 0 <= i < digits.len() ==> is_digit(#[trigger] digits[i]))
        && decimal_value(digits) <= u32::MAX {
        Some(decimal_value(digits) as u32)
    } else {
        None
    }
}

/// Component `k` of a version string: its `k`-th dot-separated piece read as
/// a `u32`, or zero when the piece is missing or is not such a number.
pub open spec fn version_component(version: Seq<char>, k: int) -> u32 {
    let parts = split_dots(version);
    if k < parts.len() {
        match parse_u32(parts[k]) {
            Some(v) => v,
            None => 0,
        }
    } else {
        0
    }
}

/// What is known, while reading one piece, of the piece read so far.
struct PieceReader {
    /// Number of characters read.
    len: usize,
    /// Whether the first character was `+`.
    plus: bool,
    /// Whether every character after the optional `+` is a digit and their
    /// value still fits in a `u32`.
    ok: bool,
    /// The value of the digits read, when `ok`.
    value: u32,
}

spec fn reader_matches(r: PieceReader, piece: Seq<char>) -> bool {
    let digits = unsigned_digits(piece);
    &&& r.len == piece.len()
    &&& r.plus == (piece.len() > 0 && piece[0] == '+')
    &&& r.ok == ((forall|i: int| 0 <= i < digits.len() ==> is_digit(#[trigger] digits[i]))
        && decimal_value(digits) <= u32::MAX)
    &&& r.ok ==> r.value == decimal_value(digits)
}

fn new_reader() -> (r: PieceReader)
    ensures
        reader_matches(r, Seq::empty()),
{
    PieceReader { len: 0, plus: false, ok: true, value: 0 }
}

proof fn lemma_decimal_value_push(digits: Seq<char>, c: char)
    ensures
        decimal_value(digits.push(c)) == decimal_value(digits) * 10 + (c as nat - '0' as nat) as nat,
{
    assert(digits.push(c).drop_last() =~= digits);
}

fn read_char(r: PieceReader, c: char, Ghost(piece): Ghost<Seq<char>>) -> (next: PieceReader)
    requires
        reader_matches(r, piece),
        piece.len() < usize::MAX,
    ensures
        reader_matches(next, piece.push(c)),
{
    let ghost extended = piece.push(c);
    proof {
        if piece.len() > 0 && piece[0] == '+' {
            assert(extended.drop_first() =~= piece.drop_first().push(c));
        }
        if piece.len() == 0 && c == '+' {
            assert(unsigned_digits(extended) =~= Seq::<char>::empty());
        }
    }
    if r.len == 0 && c == '+' {
        return PieceReader { len: 1, plus: true, ok: true, value: 0 };
    }
    let ghost digits = unsigned_digits(piece);
    proof {
        assert(unsigned_digits(extended) =~= digits.push(c));
        lemma_decimal_value_push(digits, c);
    }
    let len = r.len + 1;
    if !r.ok || !('0' <= c && c <= '9') {
        proof {
            if !r.ok {
                if !(forall|i: int| 0 <= i < digits.len() ==> is_digit(#[trigger] digits[i])) {
                    let i = choose|i: int| 0 <= i < digits.len() && !is_digit(#[trigger] digits[i]);
                    assert(digits.push(c)[i] == digits[i]);
                }
            } else {
                assert(digits.push(c)[digits.len() as int] == c);
            }
        }
        return PieceReader { len, plus: r.plus, ok: false, value: 0 };
    }
    let digit = (c as u32) - ('0' as u32);
    let value = match r.value.checked_mul(10) {
        Some(tens) => tens.checked_add(digit),
        None => None,
    };
    proof {
        assert forall|i: int| 0 <= i < digits.len() + 1 implies is_digit(
            #[trigger] digits.push(c)[i],
        ) by {
            if i < digits.len() {
                assert(digits.push(c)[i] == digits[i]);
            }
        }
    }
    match value {
        Some(v) => PieceReader { len, plus: r.plus, ok: true, value: v },
        None => PieceReader { len, plus: r.plus, ok: false, value: 0 },
    }
}

fn finish_reader(r: PieceReader, Ghost(piece): Ghost<Seq<char>>) -> (v: u32)
    requires
        reader_matches(r, piece),
    ensures
        v == (match parse_u32(piece) {
            Some(x) => x,
            None => 0,
        }),
{
    let digit_count = if r.plus {
        r.len - 1
    } else {
        r.len
    };
    if r.ok && digit_count > 0 {
        r.value
    } else {
        0
    }
}

/// Reads the version triple (major, minor, patch) from a version string such
/// as `"1.4.2"`: the first three dot-separated pieces, each read as a `u32`,
/// with zero for a piece that is missing or is not such a number.
pub fn version_info(version: &str) -> (r: (u32, u32, u32))
    ensures
        r == (
            version_component(version@, 0),
            version_component(version@, 1),
            version_component(version@, 2),
        ),
{
    let n = version.unicode_len();
    let mut found: [u32; 3] = [0, 0, 0];
    let mut part: usize = 0;
    let mut reader = new_reader();
    let mut i: usize = 0;
    assert(version@.take(0) =~= Seq::<char>::empty());
    while i < n
        invariant
            n == version@.len(),
            i <= n,
            part == split_scan(version@.take(i as int)).0.len(),
            part <= i,
            reader_matches(reader, split_scan(version@.take(i as int)).1),
            split_scan(version@.take(i as int)).1.len() <= i,
            forall|k: int|
                0 <= k < 3 ==> #[trigger] found[k] == (if k < part {
                    match parse_u32(split_scan(version@.take(i as int)).0[k]) {
                        Some(x) => x,
                        None => 0,
                    }
                } else {
                    0
                }),
        decreases n - i,
    {
        let c = version.get_char(i);
        let ghost before = version@.take(i as int);
        let ghost after = version@.take(i + 1);
        assert(after.drop_last() =~= before);
        assert(after.last() == c);
        if c == '.' {
            let v = finish_reader(reader, Ghost(split_scan(before).1));
            if part < 3 {
                found[part] = v;
            }
            part = part + 1;
            reader = new_reader();
        } else {
            reader = read_char(reader, c, Ghost(split_scan(before).1));
        }
        i = i + 1;
    }
    assert(version@.take(n as int) =~= version@);
    let last = finish_reader(reader, Ghost(split_scan(version@).1));
    if part < 3 {
        found[part] = last;
    }
    (found[0], found[1], found[2])
}

} // verus!
