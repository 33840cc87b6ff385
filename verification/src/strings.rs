//! The bytes of a string literal: escape sequences are replaced by what they
//! stand for, other characters by their UTF-8 encoding, and each malformed
//! escape is reported at its place in the source.
use vstd::prelude::*;
use crate::ast::{error_view, Diagnostic, Diagnostics, Level, Loc};
use crate::text::push_char;

verus! {

/// The number of bytes of a character in UTF-8.
pub open spec fn utf8_len(c: u32) -> nat {
    if c < 0x80 {
        1
    } else if c < 0x800 {
        2
    } else if c < 0x10000 {
        3
    } else {
        4
    }
}

/// The UTF-8 encoding of a code point.
pub open spec fn utf8_encode(c: u32) -> Seq<u8> {
    if c < 0x80 {
        seq![c as u8]
    } else if c < 0x800 {
        seq![(0xC0 + c / 64) as u8, (0x80 + c % 64) as u8]
    } else if c < 0x10000 {
        seq![(0xE0 + c / 4096) as u8, (0x80 + (c / 64) % 64) as u8, (0x80 + c % 64) as u8]
    } else {
        seq![
            (0xF0 + c / 262144) as u8,
            (0x80 + (c / 4096) % 64) as u8,
            (0x80 + (c / 64) % 64) as u8,
            (0x80 + c % 64) as u8,
        ]
    }
}

/// The byte offset of character `k` of `chars`, in UTF-8.
pub open spec fn byte_offset(chars: Seq<char>, k: int) -> nat
    decreases k,
{
    if k <= 0 {
        0
    } else {
        byte_offset(chars, k - 1) + utf8_len(chars[k - 1] as u32)
    }
}

/// The value of a hexadecimal digit.
pub open spec fn hex_value(c: char) -> Option<u32> {
    if '0' <= c && c <= '9' {
        Some((c as u32 - '0' as u32) as u32)
    } else if 'a' <= c && c <= 'f' {
        Some((c as u32 - 'a' as u32 + 10) as u32)
    } else if 'A' <= c && c <= 'F' {
        Some((c as u32 - 'A' as u32 + 10) as u32)
    } else {
        None
    }
}

/// What reading the hex digits of an escape gives: the value and where
/// reading goes on, or the offset that the error ends at and where reading
/// goes on.
pub enum Digits {
    Value(u32, int),
    Missing(int, int),
}

/// Reads `count` hex digits from character `k` on. A character that is no
/// hex digit ends the escape and takes the one after it along.
pub open spec fn hex_digits(chars: Seq<char>, k: int, count: nat, acc: u32) -> Digits
    decreases count,
{
    if count == 0 {
        Digits::Value(acc, k)
    } else if k >= chars.len() {
        Digits::Missing(usize::MAX as int, chars.len() as int)
    } else {
        match hex_value(chars[k]) {
            Some(v) => hex_digits(chars, k + 1, (count - 1) as nat, (acc * 16 + v) as u32),
            None => if k + 1 < chars.len() {
                Digits::Missing(byte_offset(chars, k + 1) as int, k + 2)
            } else {
                Digits::Missing(usize::MAX as int, chars.len() as int)
            },
        }
    }
}

pub open spec fn min(a: int, b: int) -> int {
    if a < b {
        a
    } else {
        b
    }
}

/// The byte that a one-character escape stands for.
pub open spec fn simple_escape(c: char) -> Option<u8> {
    if c == '\\' {
        Some(0x5c)
    } else if c == '\'' {
        Some(0x27)
    } else if c == '"' {
        Some(0x22)
    } else if c == 'b' {
        Some(0x08)
    } else if c == 'f' {
        Some(0x0c)
    } else if c == 'n' {
        Some(0x0a)
    } else if c == 'r' {
        Some(0x0d)
    } else if c == 't' {
        Some(0x09)
    } else if c == 'v' {
        Some(0x0b)
    } else {
        None
    }
}

pub type DiagView = (Loc, Level, Seq<char>);

/// One step of unescaping from character `k`: the bytes and diagnostics it
/// gives, and the character where the next step starts; `None` where a
/// backslash ends the literal.
pub open spec fn unescape_step(chars: Seq<char>, k: int, start: int, file_no: usize) -> Option<
    (Seq<u8>, Seq<DiagView>, int),
> {
    let n = chars.len() as int;
    let size = byte_offset(chars, n) as int;
    let c = chars[k];
    if c != '\\' {
        Some((utf8_encode(c as u32), Seq::empty(), k + 1))
    } else if k + 1 >= n {
        None
    } else {
        let e = chars[k + 1];
        let i = byte_offset(chars, k + 1) as int;
        if e == '\n' {
            Some((Seq::empty(), Seq::empty(), k + 2))
        } else if simple_escape(e) is Some {
            Some((seq![simple_escape(e)->0], Seq::empty(), k + 2))
        } else if e == 'x' {
            match hex_digits(chars, k + 2, 2, 0) {
                Digits::Value(v, next) => Some((seq![v as u8], Seq::empty(), next)),
                Digits::Missing(offset, next) => Some(
                    (
                        Seq::empty(),
                        seq![
                            error_view(
                                Loc::File(file_no, (start + i) as usize, (start + min(size, offset)) as usize),
                                "\\x escape should be followed by two hex digits"@,
                            ),
                        ],
                        next,
                    ),
                ),
            }
        } else if e == 'u' {
            match hex_digits(chars, k + 2, 4, 0) {
                Digits::Value(v, next) => if 0xD800 <= v <= 0xDFFF {
                    Some(
                        (
                            Seq::empty(),
                            seq![
                                error_view(
                                    Loc::File(file_no, (start + i) as usize, (start + i + 6) as usize),
                                    "Found an invalid unicode character"@,
                                ),
                            ],
                            next,
                        ),
                    )
                } else {
                    Some((utf8_encode(v), Seq::empty(), next))
                },
                Digits::Missing(offset, next) => Some(
                    (
                        Seq::empty(),
                        seq![
                            error_view(
                                Loc::File(file_no, (start + i) as usize, (start + min(size, offset)) as usize),
                                "\\u escape should be followed by four hex digits"@,
                            ),
                        ],
                        next,
                    ),
                ),
            }
        } else {
            Some(
                (
                    Seq::empty(),
                    seq![
                        error_view(
                            Loc::File(
                                file_no,
                                (start + i) as usize,
                                (start + i + utf8_len(e as u32)) as usize,
                            ),
                            "unknown escape character '"@ + seq![e] + "'"@,
                        ),
                    ],
                    k + 2,
                ),
            )
        }
    }
}

proof fn lemma_hex_digits_advance(chars: Seq<char>, k: int, count: nat, acc: u32)
    ensures
        match hex_digits(chars, k, count, acc) {
            Digits::Value(_, next) => next == k + count && next <= chars.len() || count == 0 && next == k,
            Digits::Missing(_, next) => k < next <= chars.len() || (k >= chars.len() && next == chars.len()),
        },
    decreases count,
{
    if count > 0 && k < chars.len() {
        if let Some(v) = hex_value(chars[k]) {
            lemma_hex_digits_advance(chars, k + 1, (count - 1) as nat, (acc * 16 + v) as u32);
        }
    }
}

/// Unescaping from character `k` to the end: the bytes and the diagnostics;
/// `None` where a backslash ends the literal.
pub open spec fn unescape_from(chars: Seq<char>, k: int, start: int, file_no: usize) -> Option<
    (Seq<u8>, Seq<DiagView>),
>
    decreases chars.len() - k,
{
    if k < 0 || k >= chars.len() {
        Some((Seq::empty(), Seq::empty()))
    } else {
        match unescape_step(chars, k, start, file_no) {
            None => None,
            Some((bytes, diags, next)) => if next <= k || next > chars.len() {
                None
            } else {
                match unescape_from(chars, next, start, file_no) {
                    None => None,
                    Some((b2, d2)) => Some((bytes + b2, diags + d2)),
                }
            },
        }
    }
}

/// The bytes of unescaping from character `k` to the end.
pub open spec fn unescaped_bytes(chars: Seq<char>, k: int, start: int, file_no: usize) -> Seq<u8> {
    match unescape_from(chars, k, start, file_no) {
        Some((b, _)) => b,
        None => Seq::empty(),
    }
}

/// The diagnostics of unescaping from character `k` to the end.
pub open spec fn unescaped_diagnostics(chars: Seq<char>, k: int, start: int, file_no: usize) -> Seq<DiagView> {
    match unescape_from(chars, k, start, file_no) {
        Some((_, d)) => d,
        None => Seq::empty(),
    }
}

fn code_point(c: char) -> (r: u32)
    ensures
        r == c as u32,
{
    c as u32
}

fn utf8_size(c: u32) -> (r: usize)
    ensures
        r == utf8_len(c),
{
    if c < 0x80 {
        1
    } else if c < 0x800 {
        2
    } else if c < 0x10000 {
        3
    } else {
        4
    }
}

/// Appends the UTF-8 encoding of `c`.
fn push_utf8(out: &mut Vec<u8>, c: u32)
    ensures
        final(out)@ == old(out)@ + utf8_encode(c),
{
    if c < 0x80 {
        out.push(c as u8);
    } else if c < 0x800 {
        out.push((0xC0 + c / 64) as u8);
        out.push((0x80 + c % 64) as u8);
    } else if c < 0x10000 {
        out.push((0xE0 + c / 4096) as u8);
        out.push((0x80 + (c / 64) % 64) as u8);
        out.push((0x80 + c % 64) as u8);
    } else {
        out.push((0xF0 + c / 262144) as u8);
        out.push((0x80 + (c / 4096) % 64) as u8);
        out.push((0x80 + (c / 64) % 64) as u8);
        out.push((0x80 + c % 64) as u8);
    }
    assert(out@ =~= old(out)@ + utf8_encode(c));
}

fn hex_digit(c: char) -> (r: Option<u32>)
    ensures
        r == hex_value(c),
{
    if '0' <= c && c <= '9' {
        Some(code_point(c) - code_point('0'))
    } else if 'a' <= c && c <= 'f' {
        Some(code_point(c) - code_point('a') + 10)
    } else if 'A' <= c && c <= 'F' {
        Some(code_point(c) - code_point('A') + 10)
    } else {
        None
    }
}

/// Reads `count` hex digits from character `k` on, as `hex_digits` does:
/// `Ok((value, next))` or `Err((offset, next))`.
fn read_hex_digits(chars: &Vec<char>, offsets: &Vec<usize>, k: usize, count: usize) -> (r: Result<
    (u32, usize),
    (usize, usize),
>)
    requires
        count <= 4,
        offsets@.len() == chars@.len() + 1,
        forall|j: int| 0 <= j <= chars@.len() ==> offsets@[j] == byte_offset(chars@, j),
        k <= chars@.len(),
    ensures
        match hex_digits(chars@, k as int, count as nat, 0) {
            Digits::Value(v, next) => r matches Ok((rv, rn)) && rv == v && rn == next && next <= chars@.len(),
            Digits::Missing(offset, next) => r matches Err((ro, rn)) && ro == offset && rn == next && next
                <= chars@.len(),
        },
{
    let mut acc: u32 = 0;
    let mut j: usize = k;
    let mut left: usize = count;
    while left > 0
        invariant
            offsets@.len() == chars@.len() + 1,
            forall|i: int| 0 <= i <= chars@.len() ==> offsets@[i] == byte_offset(chars@, i),
            k <= j <= chars@.len(),
            left <= count <= 4,
            j - k == count - left,
            acc < pow16(count - left),
            hex_digits(chars@, k as int, count as nat, 0) == hex_digits(chars@, j as int, left as nat, acc),
        decreases left,
    {
        if j >= chars.len() {
            return Err((usize::MAX, chars.len()));
        }
        match hex_digit(chars[j]) {
            Some(v) => {
                proof {
                    lemma_pow16(count - left);
                }
                acc = acc * 16 + v;
                j = j + 1;
                left = left - 1;
            },
            None => {
                if j + 1 < chars.len() {
                    return Err((offsets[j + 1], j + 2));
                } else {
                    return Err((usize::MAX, chars.len()));
                }
            },
        }
    }
    Ok((acc, j))
}

pub open spec fn pow16(e: int) -> int
    decreases e,
{
    if e <= 0 {
        1
    } else {
        16 * pow16(e - 1)
    }
}

proof fn lemma_pow16(e: int)
    requires
        0 <= e < 4,
    ensures
        pow16(e) <= 4096,
        pow16(e + 1) == 16 * pow16(e),
{
    reveal_with_fuel(pow16, 5);
}

/// The characters of a literal.
fn literal_chars(literal: &str) -> (r: Vec<char>)
    ensures
        r@ == literal@,
{
    let n = literal.unicode_len();
    let mut r: Vec<char> = Vec::new();
    let mut j: usize = 0;
    while j < n
        invariant
            n == literal@.len(),
            j <= n,
            r@ == literal@.subrange(0, j as int),
        decreases n - j,
    {
        r.push(literal.get_char(j));
        j = j + 1;
    }
    assert(r@ =~= literal@);
    r
}

/// The UTF-8 byte offset of each character, and of the end.
fn char_offsets(chars: &Vec<char>, limit: usize) -> (r: Vec<usize>)
    requires
        byte_offset(chars@, chars@.len() as int) <= limit,
    ensures
        r@.len() == chars@.len() + 1,
        forall|j: int| 0 <= j <= chars@.len() ==> r@[j] == byte_offset(chars@, j),
{
    let mut r: Vec<usize> = Vec::new();
    r.push(0);
    let mut j: usize = 0;
    let mut pos: usize = 0;
    while j < chars.len()
        invariant
            j <= chars@.len(),
            r@.len() == j + 1,
            pos == byte_offset(chars@, j as int),
            byte_offset(chars@, chars@.len() as int) <= limit,
            forall|i: int| 0 <= i <= j ==> r@[i] == byte_offset(chars@, i),
        decreases chars@.len() - j,
    {
        proof {
            lemma_byte_offset_grows(chars@, j + 1, chars@.len() as int);
        }
        pos = pos + utf8_size(code_point(chars[j]));
        r.push(pos);
        j = j + 1;
    }
    r
}

proof fn lemma_byte_offset_grows(chars: Seq<char>, a: int, b: int)
    requires
        a <= b,
    ensures
        byte_offset(chars, a) <= byte_offset(chars, b),
    decreases b - a,
{
    if a < b {
        lemma_byte_offset_grows(chars, a, b - 1);
    }
}

/// The bytes that a string literal stands for. `start` is where the literal
/// starts in file `file_no`; each malformed escape is reported there and
/// contributes no bytes. A `\` followed by a newline stands for nothing.
pub fn unescape(literal: &str, start: usize, file_no: usize, diagnostics: &mut Diagnostics) -> (s: Vec<
    u8,
>)
    requires
        unescape_from(literal@, 0, start as int, file_no) is Some,
        start + byte_offset(literal@, literal@.len() as int) + 6 <= usize::MAX,
    ensures
        s@ == unescaped_bytes(literal@, 0, start as int, file_no),
        final(diagnostics)@ == old(diagnostics)@ + unescaped_diagnostics(literal@, 0, start as int, file_no),
{
    let chars = literal_chars(literal);
    let n = chars.len();
    let ghost total = (unescaped_bytes(chars@, 0, start as int, file_no), unescaped_diagnostics(chars@, 0, start as int, file_no));
    proof {
        lemma_byte_offset_grows(chars@, 0, n as int);
    }
    let offsets = char_offsets(&chars, usize::MAX - 6 - start);
    let size = offsets[n];
    let mut s: Vec<u8> = Vec::new();
    let mut k: usize = 0;
    while k < n
        invariant
            n == chars@.len(),
            chars@ == literal@,
            size == byte_offset(chars@, n as int),
            start + size + 6 <= usize::MAX,
            offsets@.len() == chars@.len() + 1,
            forall|j: int| 0 <= j <= chars@.len() ==> offsets@[j] == byte_offset(chars@, j),
            k <= n,
            unescape_from(chars@, k as int, start as int, file_no) is Some,
            total.0 == s@ + unescaped_bytes(chars@, k as int, start as int, file_no),
            old(diagnostics)@ + total.1 == diagnostics@ + unescaped_diagnostics(chars@, k as int, start as int, file_no),
        decreases n - k,
    {
        let ghost step = unescape_step(chars@, k as int, start as int, file_no)->0;
        let ghost rest = unescape_from(chars@, step.2, start as int, file_no)->0;
        let ghost s_before = s@;
        let ghost d_before = diagnostics@;
        assert(unescape_from(chars@, k as int, start as int, file_no)->0 == (step.0 + rest.0, step.1 + rest.1));
        proof {
            lemma_byte_offset_grows(chars@, (k + 1) as int, n as int);
        }
        let ch = chars[k];
        let next: usize;
        if ch != '\\' {
            push_utf8(&mut s, code_point(ch));
            next = k + 1;
        } else {
            let e = chars[k + 1];
            let i = offsets[k + 1];
            if e == '\n' {
                next = k + 2;
            } else if e == '\\' {
                s.push(0x5c);
                next = k + 2;
            } else if e == '\'' {
                s.push(0x27);
                next = k + 2;
            } else if e == '"' {
                s.push(0x22);
                next = k + 2;
            } else if e == 'b' {
                s.push(0x08);
                next = k + 2;
            } else if e == 'f' {
                s.push(0x0c);
                next = k + 2;
            } else if e == 'n' {
                s.push(0x0a);
                next = k + 2;
            } else if e == 'r' {
                s.push(0x0d);
                next = k + 2;
            } else if e == 't' {
                s.push(0x09);
                next = k + 2;
            } else if e == 'v' {
                s.push(0x0b);
                next = k + 2;
            } else if e == 'x' {
                match read_hex_digits(&chars, &offsets, k + 2, 2) {
                    Ok((v, after)) => {
                        s.push(v as u8);
                        next = after;
                    },
                    Err((offset, after)) => {
                        let end = if size < offset { size } else { offset };
                        diagnostics.push(Diagnostic::error(
                            Loc::File(file_no, start + i, start + end),
                            String::from_str("\\x escape should be followed by two hex digits"),
                        ));
                        next = after;
                    },
                }
            } else if e == 'u' {
                match read_hex_digits(&chars, &offsets, k + 2, 4) {
                    Ok((v, after)) => {
                        if 0xD800 <= v && v <= 0xDFFF {
                            diagnostics.push(Diagnostic::error(
                                Loc::File(file_no, start + i, start + i + 6),
                                String::from_str("Found an invalid unicode character"),
                            ));
                        } else {
                            push_utf8(&mut s, v);
                        }
                        next = after;
                    },
                    Err((offset, after)) => {
                        let end = if size < offset { size } else { offset };
                        diagnostics.push(Diagnostic::error(
                            Loc::File(file_no, start + i, start + end),
                            String::from_str("\\u escape should be followed by four hex digits"),
                        ));
                        next = after;
                    },
                }
            } else {
                let mut m = String::from_str("unknown escape character '");
                push_char(&mut m, e);
                m.append("'");
                assert(m@ =~= "unknown escape character '"@ + seq![e] + "'"@);
                let width = utf8_size(code_point(e));
                diagnostics.push(Diagnostic::error(
                    Loc::File(file_no, start + i, start + i + width),
                    m,
                ));
                next = k + 2;
            }
        }
        assert(next as int == step.2);
        assert(s@ =~= s_before + step.0);
        assert(diagnostics@ =~= d_before + step.1);
        assert(total.0 =~= s@ + rest.0);
        assert(old(diagnostics)@ + total.1 =~= diagnostics@ + rest.1);
        k = next;
    }
    s
}

/// The UTF-8 encoding of the characters from `k` on.
pub open spec fn utf8_from(chars: Seq<char>, k: int) -> Seq<u8>
    decreases chars.len() - k,
{
    if k < 0 || k >= chars.len() {
        Seq::empty()
    } else {
        utf8_encode(chars[k] as u32) + utf8_from(chars, k + 1)
    }
}

/// A literal without backslashes stands for its own UTF-8 encoding, and
/// unescaping it reports nothing.
pub proof fn lemma_unescape_plain(chars: Seq<char>, k: int, start: int, file_no: usize)
    requires
        0 <= k,
        forall|j: int| 0 <= j < chars.len() ==> chars[j] != '\\',
    ensures
        unescape_from(chars, k, start, file_no) == Some((utf8_from(chars, k), Seq::<DiagView>::empty())),
    decreases chars.len() - k,
{
    if k < chars.len() {
        lemma_unescape_plain(chars, k + 1, start, file_no);
        assert(Seq::<DiagView>::empty() + Seq::<DiagView>::empty() =~= Seq::<DiagView>::empty());
    }
}

/// The character that writes hexadecimal digit `d`: `0`-`9`, then `a`-`f`
/// or, when `upper`, `A`-`F`.
pub open spec fn hex_char(d: nat, upper: bool) -> char {
    if d < 10 {
        (48 + d) as char
    } else if upper {
        (65 + d - 10) as char
    } else {
        (97 + d - 10) as char
    }
}

proof fn lemma_hex_char_value(d: nat, upper: bool)
    requires
        d < 16,
    ensures
        hex_value(hex_char(d, upper)) == Some(d as u32),
{
    let c = hex_char(d, upper);
    if d < 10 {
        assert(c as u32 == 48 + d);
    } else if upper {
        assert(c as u32 == 65 + d - 10);
    } else {
        assert(c as u32 == 97 + d - 10);
    }
}

/// `\x` followed by two hexadecimal digits, each written in lower or upper
/// case, stands for the one byte 16 * d1 + d2, with no diagnostic: so
/// `\xFF` and `\xff` both give 255.
pub proof fn lemma_hex_escape(d1: nat, d2: nat, upper1: bool, upper2: bool, start: int, file_no: usize)
    requires
        d1 < 16,
        d2 < 16,
    ensures
        unescape_from(
            seq!['\\', 'x', hex_char(d1, upper1), hex_char(d2, upper2)],
            0,
            start,
            file_no,
        ) == Some((seq![(16 * d1 + d2) as u8], Seq::<DiagView>::empty())),
{
    let chars = seq!['\\', 'x', hex_char(d1, upper1), hex_char(d2, upper2)];
    lemma_hex_char_value(d1, upper1);
    lemma_hex_char_value(d2, upper2);
    assert(chars[2] == hex_char(d1, upper1));
    assert(chars[3] == hex_char(d2, upper2));
    assert(hex_digits(chars, 4, 0, (d1 * 16 + d2) as u32) == Digits::Value((d1 * 16 + d2) as u32, 4));
    assert(hex_digits(chars, 3, 1, d1 as u32) == Digits::Value((d1 * 16 + d2) as u32, 4));
    assert(hex_digits(chars, 2, 2, 0) == Digits::Value((d1 * 16 + d2) as u32, 4));
    assert(simple_escape('x') is None);
    assert(unescape_from(chars, 4, start, file_no) == Some((Seq::<u8>::empty(), Seq::<DiagView>::empty())));
    assert(unescape_step(chars, 0, start, file_no) == Some(
        (seq![(16 * d1 + d2) as u8], Seq::<DiagView>::empty(), 4int),
    ));
    assert(seq![(16 * d1 + d2) as u8] + Seq::<u8>::empty() =~= seq![(16 * d1 + d2) as u8]);
    assert(Seq::<DiagView>::empty() + Seq::<DiagView>::empty() =~= Seq::<DiagView>::empty());
}

} // verus!
