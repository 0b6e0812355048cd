//! Character and string utilities: ASCII lowercasing, exact and
//! case-insensitive string comparison, and decimal rendering of counters.

use vstd::prelude::*;

verus! {

/// ASCII lowercasing of one character; anything outside `A`..`Z` is kept.
pub open spec fn lower_char(c: char) -> char {
    if 'A' <= c && c <= 'Z' {
        (((c as u8) + 32) as char)
    } else {
        c
    }
}

/// ASCII lowercasing of a character sequence.
pub open spec fn lower_seq(s: Seq<char>) -> Seq<char> {
    s.map_values(|c: char| lower_char(c))
}

/// Executable ASCII lowercasing of one character.
pub fn lower_char_exec(c: char) -> (r: char)
    ensures
        r == lower_char(c),
{
    if 'A' <= c && c <= 'Z' {
        ((c as u8) + 32) as char
    } else {
        c
    }
}

/// Lowercasing changes only ASCII capitals: any other character — the
/// dot and the path separators included — stays in place, and the
/// result of lowercasing is itself unchanged by lowercasing.
pub proof fn lemma_lower_char_fixes(c: char)
    ensures
        (lower_char(c) == '.') == (c == '.'),
        (lower_char(c) == '/') == (c == '/'),
        (lower_char(c) == '\\') == (c == '\\'),
        lower_char(lower_char(c)) == lower_char(c),
{
    if 'A' <= c && c <= 'Z' {
        assert(lower_char(c) as int == c as int + 32);
    }
}

/// Lowercasing a sequence twice is lowercasing it once.
pub proof fn lemma_lower_seq_idempotent(s: Seq<char>)
    ensures
        lower_seq(lower_seq(s)) == lower_seq(s),
{
    assert forall|i: int| 0 <= i < s.len() implies lower_seq(lower_seq(s))[i] == lower_seq(
        s,
    )[i] by {
        lemma_lower_char_fixes(s[i]);
    }
    assert(lower_seq(lower_seq(s)) =~= lower_seq(s));
}

/// Exact character-by-character string equality.
pub fn str_eq(a: &str, b: &str) -> (r: bool)
    ensures
        r == (a@ == b@),
{
    let la = a.unicode_len();
    let lb = b.unicode_len();
    if la != lb {
        return false;
    }
    let mut i: usize = 0;
    while i < la
        invariant
            i <= la,
            la == a@.len(),
            la == b@.len(),
            forall|k: int| 0 <= k < i ==> a@[k] == b@[k],
        decreases la - i,
    {
        if a.get_char(i) != b.get_char(i) {
            return false;
        }
        i = i + 1;
    }
    proof {
        assert(a@ =~= b@);
    }
    true
}

/// Whether `a`, ASCII-lowercased, equals `b` exactly.
pub fn eq_lowercased(a: &str, b: &str) -> (r: bool)
    ensures
        r == (lower_seq(a@) == b@),
{
    let la = a.unicode_len();
    let lb = b.unicode_len();
    if la != lb {
        assert(lower_seq(a@).len() == a@.len());
        return false;
    }
    let mut i: usize = 0;
    while i < la
        invariant
            i <= la,
            la == a@.len(),
            la == b@.len(),
            forall|k: int| 0 <= k < i ==> lower_seq(a@)[k] == b@[k],
        decreases la - i,
    {
        if lower_char_exec(a.get_char(i)) != b.get_char(i) {
            assert(lower_seq(a@)[i as int] == lower_char(a@[i as int]));
            return false;
        }
        assert(lower_seq(a@)[i as int] == lower_char(a@[i as int]));
        i = i + 1;
    }
    proof {
        assert(lower_seq(a@) =~= b@);
    }
    true
}

/// The character for one decimal digit.
pub open spec fn digit_char(d: nat) -> char {
    if d == 0 {
        '0'
    } else if d == 1 {
        '1'
    } else if d == 2 {
        '2'
    } else if d == 3 {
        '3'
    } else if d == 4 {
        '4'
    } else if d == 5 {
        '5'
    } else if d == 6 {
        '6'
    } else if d == 7 {
        '7'
    } else if d == 8 {
        '8'
    } else {
        '9'
    }
}

/// Decimal notation of `n`, most significant digit first, no leading zeros
/// (a single `0` for zero).
pub open spec fn dec_digits(n: nat) -> Seq<char>
    decreases n,
{
    if n < 10 {
        seq![digit_char(n)]
    } else {
        dec_digits(n / 10) + seq![digit_char(n % 10)]
    }
}

/// A one-character string for a decimal digit.
fn digit_str(d: u64) -> (r: &'static str)
    requires
        d < 10,
    ensures
        r@ == seq![digit_char(d as nat)],
{
    let r: &'static str = if d == 0 {
        "0"
    } else if d == 1 {
        "1"
    } else if d == 2 {
        "2"
    } else if d == 3 {
        "3"
    } else if d == 4 {
        "4"
    } else if d == 5 {
        "5"
    } else if d == 6 {
        "6"
    } else if d == 7 {
        "7"
    } else if d == 8 {
        "8"
    } else {
        "9"
    };
    proof {
        reveal_strlit("0");
        reveal_strlit("1");
        reveal_strlit("2");
        reveal_strlit("3");
        reveal_strlit("4");
        reveal_strlit("5");
        reveal_strlit("6");
        reveal_strlit("7");
        reveal_strlit("8");
        reveal_strlit("9");
        assert(r@ =~= seq![digit_char(d as nat)]);
    }
    r
}

/// The digit characters of a digit sequence read back to front.
spec fn rev_digit_chars(ds: Seq<u64>) -> Seq<char>
    decreases ds.len(),
{
    if ds.len() == 0 {
        Seq::empty()
    } else {
        seq![digit_char((ds.last() % 10) as nat)] + rev_digit_chars(ds.drop_last())
    }
}

proof fn lemma_rev_digit_chars_index(ds: Seq<u64>)
    ensures
        rev_digit_chars(ds).len() == ds.len(),
        forall|k: int|
            0 <= k < ds.len() ==> rev_digit_chars(ds)[k] == digit_char(
                (ds[ds.len() - 1 - k] % 10) as nat,
            ),
    decreases ds.len(),
{
    if ds.len() > 0 {
        lemma_rev_digit_chars_index(ds.drop_last());
    }
}

/// Renders `n` in decimal notation.
pub fn u64_to_string(n: u64) -> (s: String)
    ensures
        s@ == dec_digits(n as nat),
{
    let mut digits: Vec<u64> = Vec::new();
    let mut m: u64 = n;
    if m == 0 {
        digits.push(0);
        proof {
            assert(digits@.drop_last() =~= Seq::<u64>::empty());
            assert(rev_digit_chars(digits@) =~= dec_digits(n as nat));
        }
    } else {
        while m > 0
            invariant
                m > 0 ==> dec_digits(n as nat) == dec_digits(m as nat) + rev_digit_chars(
                    digits@,
                ),
                m == 0 ==> dec_digits(n as nat) == rev_digit_chars(digits@),
                forall|k: int| 0 <= k < digits@.len() ==> digits@[k] < 10,
            decreases m,
        {
            let ghost pre = digits@;
            let d = m % 10;
            digits.push(d);
            proof {
                assert(digits@.drop_last() =~= pre);
                assert(rev_digit_chars(digits@) =~= seq![digit_char(d as nat)] + rev_digit_chars(
                    pre,
                ));
                if m >= 10 {
                    assert(dec_digits(m as nat) == dec_digits((m / 10) as nat) + seq![
                        digit_char((m % 10) as nat),
                    ]);
                    assert(dec_digits((m / 10) as nat) + rev_digit_chars(digits@)
                        =~= dec_digits(m as nat) + rev_digit_chars(pre));
                } else {
                    assert(dec_digits(m as nat) =~= seq![digit_char(d as nat)]);
                    assert(rev_digit_chars(digits@) =~= dec_digits(m as nat) + rev_digit_chars(
                        pre,
                    ));
                }
            }
            m = m / 10;
        }
    }
    let mut s = String::new();
    let mut j: usize = digits.len();
    while j > 0
        invariant
            j <= digits@.len(),
            forall|k: int| 0 <= k < digits@.len() ==> digits@[k] < 10,
            s@.len() == digits@.len() - j,
            forall|k: int|
                0 <= k < s@.len() ==> s@[k] == digit_char(
                    (digits@[digits@.len() - 1 - k] % 10) as nat,
                ),
        decreases j,
    {
        j = j - 1;
        let d = digits[j];
        s.append(digit_str(d));
        proof {
            assert(d % 10 == d);
        }
    }
    proof {
        lemma_rev_digit_chars_index(digits@);
        assert(s@ =~= rev_digit_chars(digits@));
    }
    s
}

} // verus!
