//! Verified text building: decimal numbers, zero-padded map keys, and JSON
//! string escaping, used by the settings encoder.

use vstd::prelude::*;
use crate::jsonmodel::{lemma_lex_common_prefix, lemma_lex_lt_append, lex_lt};

verus! {

/// The hexadecimal digit character for `d` (also the decimal digit for `d < 10`).
pub open spec fn hex_char(d: nat) -> char {
    if d == 0 {
        '0'
    } else if d == 1 {
        '1'
    } else if d == 2 {
        '2'
    } else if d == 3 {
        '3'
    } else if d == 4 {
        '4'
    } else if d == 5 {
        '5'
    } else if d == 6 {
        '6'
    } else if d == 7 {
        '7'
    } else if d == 8 {
        '8'
    } else if d == 9 {
        '9'
    } else if d == 10 {
        'a'
    } else if d == 11 {
        'b'
    } else if d == 12 {
        'c'
    } else if d == 13 {
        'd'
    } else if d == 14 {
        'e'
    } else {
        'f'
    }
}

/// The decimal digits of `n`, most significant first, without leading zeroes.
pub open spec fn dec_nat(n: nat) -> Seq<char>
    decreases n,
{
    if n < 10 {
        seq![hex_char(n)]
    } else {
        dec_nat(n / 10) + seq![hex_char(n % 10)]
    }
}

/// The decimal form of `n`, with a minus sign ahead of a negative value.
pub open spec fn dec_int(n: int) -> Seq<char> {
    if n < 0 {
        seq!['-'] + dec_nat((-n) as nat)
    } else {
        dec_nat(n as nat)
    }
}

/// The decimal digits of `n`, zero-padded on the left to exactly `w` digits.
pub open spec fn pad_dec(w: nat, n: nat) -> Seq<char>
    decreases w,
{
    if w == 0 {
        Seq::empty()
    } else {
        pad_dec((w - 1) as nat, n / 10) + seq![hex_char(n % 10)]
    }
}

/// Powers of ten.
pub open spec fn pow10(w: nat) -> nat
    decreases w,
{
    if w == 0 {
        1
    } else {
        10 * pow10((w - 1) as nat)
    }
}

/// A padded number is exactly as long as its width.
pub proof fn lemma_pad_dec_len(w: nat, n: nat)
    ensures
        pad_dec(w, n).len() == w,
    decreases w,
{
    if w > 0 {
        lemma_pad_dec_len((w - 1) as nat, n / 10);
    }
}

/// Zero-padding to a common width turns the numeric order into the lexical
/// order of the digit strings.
pub proof fn lemma_pad_dec_lex(w: nat, m: nat, n: nat)
    requires
        m < n,
        n < pow10(w),
    ensures
        lex_lt(pad_dec(w, m), pad_dec(w, n)),
    decreases w,
{
    if w == 0 {
        assert(false);
    } else {
        let w1 = (w - 1) as nat;
        vstd::arithmetic::div_mod::lemma_multiply_divide_lt(n as int, 10, pow10(w1) as int);
        vstd::arithmetic::div_mod::lemma_div_is_ordered(m as int, n as int, 10);
        let cm = hex_char(m % 10);
        let cn = hex_char(n % 10);
        if m / 10 == n / 10 {
            vstd::arithmetic::div_mod::lemma_fundamental_div_mod(m as int, 10);
            vstd::arithmetic::div_mod::lemma_fundamental_div_mod(n as int, 10);
            assert(m % 10 < n % 10);
            assert((cm as u32) < (cn as u32));
            assert(lex_lt(seq![cm], seq![cn]));
            lemma_lex_common_prefix(pad_dec(w1, m / 10), seq![cm], seq![cn]);
        } else {
            lemma_pad_dec_lex(w1, m / 10, n / 10);
            lemma_pad_dec_len(w1, m / 10);
            lemma_pad_dec_len(w1, n / 10);
            lemma_lex_lt_append(pad_dec(w1, m / 10), pad_dec(w1, n / 10), seq![cm], seq![cn]);
        }
    }
}

/// A character that stands for itself inside a JSON string literal.
pub open spec fn plain_char(c: char) -> bool {
    c != '"' && c != '\\' && (c as u32) >= 32
}

/// The escaped form of one character inside a JSON string literal.
pub open spec fn escape_char(c: char) -> Seq<char> {
    if c == '"' {
        seq!['\\', '"']
    } else if c == '\\' {
        seq!['\\', '\\']
    } else if (c as u32) < 32 {
        seq!['\\', 'u', '0', '0', hex_char(((c as u32) / 16) as nat), hex_char(
            ((c as u32) % 16) as nat,
        )]
    } else {
        seq![c]
    }
}

/// The body of a JSON string literal for the text.
pub open spec fn escape_seq(s: Seq<char>) -> Seq<char>
    decreases s.len(),
{
    if s.len() == 0 {
        Seq::empty()
    } else {
        escape_char(s[0]) + escape_seq(s.drop_first())
    }
}

/// Escaping one more character on the right appends its escape.
pub proof fn lemma_escape_snoc(s: Seq<char>, c: char)
    ensures
        escape_seq(s.push(c)) == escape_seq(s) + escape_char(c),
    decreases s.len(),
{
    if s.len() == 0 {
        assert(s.push(c)[0] == c);
        assert(s.push(c).drop_first() =~= Seq::<char>::empty());
        assert(escape_seq(Seq::<char>::empty()) =~= Seq::<char>::empty());
        assert(escape_seq(s.push(c)) == escape_char(c) + escape_seq(s.push(c).drop_first()));
        assert(escape_seq(s.push(c)) =~= escape_seq(s) + escape_char(c));
    } else {
        assert(s.push(c)[0] == s[0]);
        assert(s.push(c).drop_first() =~= s.drop_first().push(c));
        lemma_escape_snoc(s.drop_first(), c);
        assert(escape_char(s[0]) + (escape_seq(s.drop_first()) + escape_char(c)) =~= (escape_char(
            s[0],
        ) + escape_seq(s.drop_first())) + escape_char(c));
    }
}

/// A text of plain characters escapes to itself.
pub proof fn lemma_escape_plain(s: Seq<char>)
    requires
        forall|i: int| 0 <= i < s.len() ==> plain_char(#[trigger] s[i]),
    ensures
        escape_seq(s) == s,
    decreases s.len(),
{
    if s.len() == 0 {
        assert(escape_seq(s) =~= s);
    } else {
        assert(plain_char(s[0]));
        lemma_escape_plain(s.drop_first());
        assert(escape_char(s[0]) + s.drop_first() =~= s);
    }
}

/// Every digit character is plain, so padded keys escape to themselves.
pub proof fn lemma_pad_dec_plain(w: nat, n: nat)
    ensures
        forall|i: int| 0 <= i < pad_dec(w, n).len() ==> plain_char(#[trigger] pad_dec(w, n)[i]),
        escape_seq(pad_dec(w, n)) == pad_dec(w, n),
    decreases w,
{
    if w == 0 {
    } else {
        let w1 = (w - 1) as nat;
        lemma_pad_dec_plain(w1, n / 10);
        lemma_pad_dec_len(w1, n / 10);
        assert(plain_char(hex_char(n % 10)));
        assert(forall|i: int|
            0 <= i < pad_dec(w, n).len() ==> plain_char(#[trigger] pad_dec(w, n)[i])) by {
            assert(forall|i: int|
                0 <= i < w1 ==> pad_dec(w, n)[i] == pad_dec(w1, n / 10)[i] && plain_char(
                    #[trigger] pad_dec(w1, n / 10)[i],
                ));
            assert(pad_dec(w, n)[w1 as int] == hex_char(n % 10));
        }
    }
    lemma_escape_plain(pad_dec(w, n));
}

/// A JSON string literal for the text.
pub open spec fn render_string(s: Seq<char>) -> Seq<char> {
    seq!['"'] + escape_seq(s) + seq!['"']
}

/// Appends the hexadecimal digit character for `d`.
pub(crate) fn append_hex_digit(s: &mut String, d: u8)
    requires
        d < 16,
    ensures
        final(s)@ == old(s)@ + seq![hex_char(d as nat)],
{
    let piece: &str = match d {
        0 => "0",
        1 => "1",
        2 => "2",
        3 => "3",
        4 => "4",
        5 => "5",
        6 => "6",
        7 => "7",
        8 => "8",
        9 => "9",
        10 => "a",
        11 => "b",
        12 => "c",
        13 => "d",
        14 => "e",
        _ => "f",
    };
    proof {
        reveal_strlit("0");
        reveal_strlit("1");
        reveal_strlit("2");
        reveal_strlit("3");
        reveal_strlit("4");
        reveal_strlit("5");
        reveal_strlit("6");
        reveal_strlit("7");
        reveal_strlit("8");
        reveal_strlit("9");
        reveal_strlit("a");
        reveal_strlit("b");
        reveal_strlit("c");
        reveal_strlit("d");
        reveal_strlit("e");
        reveal_strlit("f");
        assert(piece@ =~= seq![hex_char(d as nat)]);
    }
    s.append(piece);
}

/// Appends the decimal form of `n`.
pub(crate) fn append_u64_dec(s: &mut String, n: u64)
    ensures
        final(s)@ == old(s)@ + dec_nat(n as nat),
    decreases n,
{
    if n < 10 {
        append_hex_digit(s, n as u8);
    } else {
        append_u64_dec(s, n / 10);
        append_hex_digit(s, (n % 10) as u8);
        proof {
            assert((old(s)@ + dec_nat((n / 10) as nat)) + seq![hex_char((n % 10) as nat)]
                =~= old(s)@ + dec_nat(n as nat));
        }
    }
}

/// Appends the decimal form of `n`, sign included.
pub(crate) fn append_i64_dec(s: &mut String, n: i64)
    ensures
        final(s)@ == old(s)@ + dec_int(n as int),
{
    if n < 0 {
        s.append("-");
        proof {
            reveal_strlit("-");
            assert("-"@ =~= seq!['-']);
        }
        let m: u64 = (-(n as i128)) as u64;
        append_u64_dec(s, m);
        proof {
            assert((old(s)@ + seq!['-']) + dec_nat(m as nat) =~= old(s)@ + dec_int(n as int));
        }
    } else {
        append_u64_dec(s, n as u64);
    }
}

/// Appends the decimal digits of `n`, zero-padded on the left to `w` digits.
pub(crate) fn append_pad_dec(s: &mut String, w: u64, n: u64)
    ensures
        final(s)@ == old(s)@ + pad_dec(w as nat, n as nat),
    decreases w,
{
    if w == 0 {
        proof {
            assert(old(s)@ + pad_dec(0, n as nat) =~= old(s)@);
        }
    } else {
        append_pad_dec(s, w - 1, n / 10);
        append_hex_digit(s, (n % 10) as u8);
        proof {
            assert((old(s)@ + pad_dec((w - 1) as nat, (n / 10) as nat)) + seq![hex_char(
                (n % 10) as nat,
            )] =~= old(s)@ + pad_dec(w as nat, n as nat));
        }
    }
}

/// Appends the text with every character escaped as JSON requires.
pub(crate) fn append_escaped(s: &mut String, t: &str)
    ensures
        final(s)@ == old(s)@ + escape_seq(t@),
{
    let ghost base = s@;
    let n = t.unicode_len();
    let mut i: usize = 0;
    proof {
        assert(t@.subrange(0, 0) =~= Seq::<char>::empty());
        assert(base + escape_seq(t@.subrange(0, 0)) =~= base);
    }
    while i < n
        invariant
            i <= n,
            n == t@.len(),
            s@ == base + escape_seq(t@.subrange(0, i as int)),
        decreases n - i,
    {
        let c = t.get_char(i);
        let code = c as u32;
        if c == '"' {
            s.append("\\\"");
            proof {
                reveal_strlit("\\\"");
                assert("\\\""@ =~= escape_char(c));
            }
        } else if c == '\\' {
            s.append("\\\\");
            proof {
                reveal_strlit("\\\\");
                assert("\\\\"@ =~= escape_char(c));
            }
        } else if code < 32 {
            s.append("\\u00");
            append_hex_digit(s, (code / 16) as u8);
            append_hex_digit(s, (code % 16) as u8);
            proof {
                reveal_strlit("\\u00");
                assert((("\\u00"@ + seq![hex_char((code / 16) as nat)]) + seq![hex_char(
                    (code % 16) as nat,
                )]) =~= escape_char(c));
            }
        } else {
            let piece = t.substring_char(i, i + 1);
            s.append(piece);
            proof {
                assert(t@.subrange(i as int, i as int + 1) =~= seq![t@[i as int]]);
                assert(seq![t@[i as int]] =~= escape_char(c));
            }
        }
        proof {
            assert(t@.subrange(0, i as int).push(t@[i as int]) =~= t@.subrange(0, i as int + 1));
            lemma_escape_snoc(t@.subrange(0, i as int), t@[i as int]);
            assert((base + escape_seq(t@.subrange(0, i as int))) + escape_char(t@[i as int]) =~= base
                + escape_seq(t@.subrange(0, i as int + 1)));
        }
        i += 1;
    }
    proof {
        assert(t@.subrange(0, n as int) =~= t@);
    }
}

/// Appends a JSON string literal for the text.
pub(crate) fn append_json_string(s: &mut String, t: &str)
    ensures
        final(s)@ == old(s)@ + render_string(t@),
{
    s.append("\"");
    append_escaped(s, t);
    s.append("\"");
    proof {
        reveal_strlit("\"");
        assert("\""@ =~= seq!['"']);
        assert(((old(s)@ + seq!['"']) + escape_seq(t@)) + seq!['"'] =~= old(s)@ + render_string(
            t@,
        ));
    }
}

} // verus!
