use vstd::prelude::*;

verus! {

/// The character for one decimal digit value.
pub open spec fn digit_char(d: nat) -> char {
    if d == 0 {
        '0'
    } else if d == 1 {
        '1'
    } else if d == 2 {
        '2'
    } else if d == 3 {
        '3'
    } else if d == 4 {
        '4'
    } else if d == 5 {
        '5'
    } else if d == 6 {
        '6'
    } else if d == 7 {
        '7'
    } else if d == 8 {
        '8'
    } else {
        '9'
    }
}

pub open spec fn is_digit(c: char) -> bool {
    c == '0' || c == '1' || c == '2' || c == '3' || c == '4' || c == '5' || c == '6' || c == '7'
        || c == '8' || c == '9'
}

/// The value of one decimal digit character.
pub open spec fn digit_val(c: char) -> nat {
    if c == '0' {
        0
    } else if c == '1' {
        1
    } else if c == '2' {
        2
    } else if c == '3' {
        3
    } else if c == '4' {
        4
    } else if c == '5' {
        5
    } else if c == '6' {
        6
    } else if c == '7' {
        7
    } else if c == '8' {
        8
    } else {
        9
    }
}

/// Decimal digits of `n`, most significant first, without leading zeros.
pub open spec fn dec_digits(n: nat) -> Seq<char>
    decreases n,
{
    if n < 10 {
        seq![digit_char(n)]
    } else {
        dec_digits(n / 10).push(digit_char(n % 10))
    }
}

/// The number denoted by a sequence of decimal digit characters.
pub open spec fn dec_val(s: Seq<char>) -> nat
    decreases s.len(),
{
    if s.len() == 0 {
        0
    } else {
        dec_val(s.drop_last()) * 10 + digit_val(s.last())
    }
}

pub open spec fn all_digits(s: Seq<char>) -> bool {
    forall|i: int| 0 <= i < s.len() ==> is_digit(#[trigger] s[i])
}

/// Shape of a canonical decimal rendering: at least one digit, every
/// character a digit, no leading zero, and the value written is `n`.
pub proof fn lemma_dec_digits(n: nat)
    ensures
        dec_digits(n).len() >= 1,
        all_digits(dec_digits(n)),
        dec_val(dec_digits(n)) == n,
        n > 0 ==> dec_digits(n)[0] != '0',
        n == 0 ==> dec_digits(n) == seq!['0'],
    decreases n,
{
    if n < 10 {
        assert(dec_digits(n) == seq![digit_char(n)]);
        assert(dec_val(dec_digits(n)) == dec_val(seq![digit_char(n)]));
        assert(seq![digit_char(n)].drop_last() =~= Seq::<char>::empty());
        assert(dec_val(Seq::<char>::empty()) == 0);
        assert(seq![digit_char(n)].len() == 1);
        assert(seq![digit_char(n)].last() == digit_char(n));
        assert(dec_val(seq![digit_char(n)]) == digit_val(digit_char(n)));
    } else {
        lemma_dec_digits(n / 10);
        let head = dec_digits(n / 10);
        let whole = head.push(digit_char(n % 10));
        assert(whole.drop_last() =~= head);
        assert(dec_val(whole) == dec_val(head) * 10 + digit_val(digit_char(n % 10)));
        assert(digit_val(digit_char(n % 10)) == n % 10);
        assert(dec_val(whole) == (n / 10) * 10 + n % 10);
        assert((n / 10) * 10 + n % 10 == n) by (nonlinear_arith);
        assert(whole[0] == head[0]);
        assert(n / 10 > 0);
    }
}

/// Appending characters to a digit sequence never lowers its value.
pub proof fn lemma_dec_val_extend(s: Seq<char>, t: Seq<char>)
    ensures
        dec_val(s + t) >= dec_val(s),
    decreases t.len(),
{
    if t.len() == 0 {
        assert(s + t =~= s);
    } else {
        lemma_dec_val_extend(s, t.drop_last());
        assert((s + t).drop_last() =~= s + t.drop_last());
        assert(dec_val(s + t) == dec_val(s + t.drop_last()) * 10 + digit_val((s + t).last()));
        assert(dec_val(s + t.drop_last()) * 10 >= dec_val(s + t.drop_last())) by (nonlinear_arith);
    }
}

/// The end of the run of digit characters that starts at `i`.
pub open spec fn digit_run_end(s: Seq<char>, i: int) -> int
    recommends
        0 <= i <= s.len(),
    decreases s.len() - i when 0 <= i <= s.len()
{
    if i < s.len() && is_digit(s[i]) {
        digit_run_end(s, i + 1)
    } else {
        i
    }
}

/// Basic bounds and contents of a digit run.
pub proof fn lemma_digit_run_end(s: Seq<char>, i: int)
    requires
        0 <= i <= s.len(),
    ensures
        i <= digit_run_end(s, i) <= s.len(),
        forall|k: int| i <= k < digit_run_end(s, i) ==> is_digit(#[trigger] s[k]),
        digit_run_end(s, i) == s.len() || !is_digit(s[digit_run_end(s, i)]),
    decreases s.len() - i,
{
    if i < s.len() && is_digit(s[i]) {
        lemma_digit_run_end(s, i + 1);
    }
}

/// A digit run covers exactly a known all-digit stretch bounded by a
/// non-digit (or the end of the sequence).
pub proof fn lemma_digit_run_end_exact(s: Seq<char>, i: int, j: int)
    requires
        0 <= i <= j <= s.len(),
        forall|k: int| i <= k < j ==> is_digit(#[trigger] s[k]),
        j == s.len() || !is_digit(s[j]),
    ensures
        digit_run_end(s, i) == j,
    decreases j - i,
{
    if i < j {
        lemma_digit_run_end_exact(s, i + 1, j);
    }
}

/// A digit run reaches at least as far as any all-digit stretch from `i`.
pub proof fn lemma_digit_run_end_lb(s: Seq<char>, i: int, j: int)
    requires
        0 <= i <= j <= s.len(),
        forall|k: int| i <= k < j ==> is_digit(#[trigger] s[k]),
    ensures
        digit_run_end(s, i) >= j,
    decreases j - i,
{
    lemma_digit_run_end(s, i);
    if i < j {
        assert(is_digit(s[i]));
        lemma_digit_run_end_lb(s, i + 1, j);
    }
}

/// The digit character `d`, as a one-character string slice.
pub fn digit_str(d: u64) -> (r: &'static str)
    requires
        d < 10,
    ensures
        r@ == seq![digit_char(d as nat)],
{
    let r: &'static str = if d == 0 {
        "0"
    } else if d == 1 {
        "1"
    } else if d == 2 {
        "2"
    } else if d == 3 {
        "3"
    } else if d == 4 {
        "4"
    } else if d == 5 {
        "5"
    } else if d == 6 {
        "6"
    } else if d == 7 {
        "7"
    } else if d == 8 {
        "8"
    } else {
        "9"
    };
    proof {
        reveal_strlit("0");
        reveal_strlit("1");
        reveal_strlit("2");
        reveal_strlit("3");
        reveal_strlit("4");
        reveal_strlit("5");
        reveal_strlit("6");
        reveal_strlit("7");
        reveal_strlit("8");
        reveal_strlit("9");
        assert(r@ =~= seq![digit_char(d as nat)]);
    }
    r
}

/// Appends the canonical decimal rendering of `n`.
pub fn append_u64(out: &mut String, n: u64)
    ensures
        final(out)@ == old(out)@ + dec_digits(n as nat),
    decreases n,
{
    if n >= 10 {
        append_u64(out, n / 10);
        out.append(digit_str(n % 10));
        proof {
            assert(out@ =~= old(out)@ + dec_digits((n / 10) as nat).push(
                digit_char((n % 10) as nat),
            ));
        }
    } else {
        out.append(digit_str(n));
        proof {
            assert(out@ =~= old(out)@ + seq![digit_char(n as nat)]);
        }
    }
}

/// Decimal rendering of a signed value: a minus sign and the digits of the
/// magnitude, or the bare digits when non-negative.
pub open spec fn int_chars(v: int) -> Seq<char> {
    if v < 0 {
        seq!['-'] + dec_digits((-v) as nat)
    } else {
        dec_digits(v as nat)
    }
}

/// Appends the decimal rendering of a signed value.
pub fn append_i64(out: &mut String, v: i64)
    ensures
        final(out)@ == old(out)@ + int_chars(v as int),
{
    if v >= 0 {
        append_u64(out, v as u64);
    } else {
        out.append("-");
        proof {
            reveal_strlit("-");
            assert(out@ =~= old(out)@ + seq!['-']);
        }
        let m: u64 = ((-(v + 1)) as u64) + 1;
        assert(m == -(v as int));
        append_u64(out, m);
        proof {
            assert(out@ =~= old(out)@ + (seq!['-'] + dec_digits((-(v as int)) as nat)));
        }
    }
}

/// The digit value of `c`, when `c` is a decimal digit character.
pub fn digit_of(c: char) -> (r: Option<u64>)
    ensures
        r is Some <==> is_digit(c),
        r matches Some(d) ==> d == digit_val(c) && d < 10,
{
    match c {
        '0' => Some(0),
        '1' => Some(1),
        '2' => Some(2),
        '3' => Some(3),
        '4' => Some(4),
        '5' => Some(5),
        '6' => Some(6),
        '7' => Some(7),
        '8' => Some(8),
        '9' => Some(9),
        _ => None,
    }
}

/// Result of reading a canonical decimal number at position `i`: its value
/// and the position just past it. There is no number to read when the run of
/// digits is empty, has a leading zero, or denotes a value above `u64::MAX`.
pub open spec fn spec_scan_u64(s: Seq<char>, i: int) -> Option<(u64, int)> {
    let j = digit_run_end(s, i);
    if i < j && dec_val(s.subrange(i, j)) <= u64::MAX && (s[i] != '0' || j == i + 1) {
        Some((dec_val(s.subrange(i, j)) as u64, j))
    } else {
        None
    }
}

/// Reads a canonical decimal `u64` at position `i`.
pub fn scan_u64(s: &str, i: usize) -> (r: Option<(u64, usize)>)
    requires
        i <= s@.len(),
    ensures
        r matches Some(p) ==> spec_scan_u64(s@, i as int) == Some((p.0, p.1 as int)) && i < p.1
            <= s@.len(),
        r is None ==> spec_scan_u64(s@, i as int) is None,
{
    let ghost t = s@;
    let len: usize = s.unicode_len();
    if i == len {
        return None;
    }
    let c0 = s.get_char(i);
    if digit_of(c0).is_none() {
        return None;
    }
    let mut j: usize = i;
    let mut val: u64 = 0;
    loop
        invariant
            i <= j <= len,
            len == t.len(),
            t == s@,
            forall|k: int| i <= k < j ==> is_digit(#[trigger] t[k]),
            val == dec_val(t.subrange(i as int, j as int)),
        ensures
            i <= j <= len,
            forall|k: int| i <= k < j ==> is_digit(#[trigger] t[k]),
            val == dec_val(t.subrange(i as int, j as int)),
            j == len || !is_digit(t[j as int]),
        decreases len - j,
    {
        if j == len {
            break;
        }
        let c = s.get_char(j);
        match digit_of(c) {
            None => {
                break;
            },
            Some(d) => {
                proof {
                    assert(t.subrange(i as int, j + 1).drop_last() =~= t.subrange(
                        i as int,
                        j as int,
                    ));
                    assert(dec_val(t.subrange(i as int, j + 1)) == val * 10 + d);
                }
                if val > (u64::MAX - d) / 10 {
                    proof {
                        assert(val * 10 + d > u64::MAX) by (nonlinear_arith)
                            requires
                                val > (u64::MAX - d) / 10,
                                d < 10,
                        ;
                        lemma_digit_run_end_lb(t, i as int, j + 1);
                        let e = digit_run_end(t, i as int);
                        lemma_digit_run_end(t, i as int);
                        assert(t.subrange(i as int, e) =~= t.subrange(i as int, j + 1)
                            + t.subrange(j + 1, e));
                        lemma_dec_val_extend(t.subrange(i as int, j + 1), t.subrange(j + 1, e));
                        assert(dec_val(t.subrange(i as int, e)) > u64::MAX);
                    }
                    return None;
                }
                val = val * 10 + d;
                j = j + 1;
            },
        }
    }
    proof {
        lemma_digit_run_end_exact(t, i as int, j as int);
    }
    if j > i + 1 && c0 == '0' {
        return None;
    }
    Some((val, j))
}

} // verus!
