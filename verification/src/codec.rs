use vstd::prelude::*;

use crate::error::ExportError;
use crate::num::{
    all_digits, dec_digits, dec_val, digit_run_end, int_chars, is_digit, spec_scan_u64, append_u64,
    scan_u64, lemma_dec_digits, lemma_digit_run_end_exact,
};
use crate::state::State;

verus! {

/// A literal occurs at position `i`.
pub open spec fn lit_at(s: Seq<char>, i: int, pat: Seq<char>) -> bool {
    0 <= i && i + pat.len() <= s.len() && s.subrange(i, i + pat.len()) == pat
}

/// The canonical rendering of a cursor state record.
pub open spec fn state_chars(s: State) -> Seq<char> {
    "{\"last_run\":"@ + dec_digits(s.last_run as nat) + ",\"last_sync\":"@ + dec_digits(
        s.last_sync as nat,
    ) + ",\"last_history_id\":"@ + dec_digits(s.last_history_id as nat) + "}"@
}

/// The state denoted by a sequence of characters: the canonical rendering of
/// exactly one record, or nothing.
pub open spec fn spec_parse_state(t: Seq<char>) -> Option<State> {
    let l1 = "{\"last_run\":"@;
    let l2 = ",\"last_sync\":"@;
    let l3 = ",\"last_history_id\":"@;
    let l4 = "}"@;
    if !lit_at(t, 0, l1) {
        None
    } else {
        match spec_scan_u64(t, l1.len() as int) {
            None => None,
            Some((run, j1)) => {
                if !lit_at(t, j1, l2) {
                    None
                } else {
                    match spec_scan_u64(t, j1 + l2.len()) {
                        None => None,
                        Some((sync, j2)) => {
                            if !lit_at(t, j2, l3) {
                                None
                            } else {
                                match spec_scan_u64(t, j2 + l3.len()) {
                                    None => None,
                                    Some((hist, j3)) => {
                                        if lit_at(t, j3, l4) && j3 + l4.len() == t.len() {
                                            Some(
                                                State {
                                                    last_run: run,
                                                    last_sync: sync,
                                                    last_history_id: hist,
                                                },
                                            )
                                        } else {
                                            None
                                        }
                                    },
                                }
                            }
                        },
                    }
                }
            },
        }
    }
}

/// Serializes a state record in the stable, re-parseable format of the
/// state file.
pub fn render_state(s: &State) -> (r: String)
    ensures
        r@ == state_chars(*s),
{
    let mut out = String::new();
    out.append("{\"last_run\":");
    append_u64(&mut out, s.last_run);
    out.append(",\"last_sync\":");
    append_u64(&mut out, s.last_sync);
    out.append(",\"last_history_id\":");
    append_u64(&mut out, s.last_history_id);
    out.append("}");
    proof {
        assert(out@ =~= state_chars(*s));
    }
    out
}

/// Checks that `pat` occurs in `s` at position `i`, and returns the position
/// just past it.
fn expect_lit(s: &str, i: usize, pat: &str) -> (r: Option<usize>)
    requires
        i <= s@.len(),
    ensures
        r matches Some(j) ==> j == i + pat@.len() && j <= s@.len() && lit_at(s@, i as int, pat@),
        r is None ==> !lit_at(s@, i as int, pat@),
{
    let len: usize = s.unicode_len();
    let plen: usize = pat.unicode_len();
    if plen > len - i {
        return None;
    }
    let mut k: usize = 0;
    while k < plen
        invariant
            i + plen <= len,
            len == s@.len(),
            plen == pat@.len(),
            k <= plen,
            forall|p: int| 0 <= p < k ==> s@[i + p] == pat@[p],
        decreases plen - k,
    {
        let a = s.get_char(i + k);
        let b = pat.get_char(k);
        if a != b {
            proof {
                assert(s@.subrange(i as int, i + plen) != pat@) by {
                    assert(s@.subrange(i as int, i + plen)[k as int] == s@[i + k]);
                }
            }
            return None;
        }
        k = k + 1;
    }
    proof {
        assert(s@.subrange(i as int, i + plen) =~= pat@);
    }
    Some(i + plen)
}

/// Parses the state file format written by `render_state`. Returns
/// `StateCorrupt` for any text that is not the canonical rendering of a
/// state record.
pub fn parse_state(text: &str) -> (r: Result<State, ExportError>)
    ensures
        r matches Ok(st) ==> spec_parse_state(text@) == Some(st),
        r is Err ==> spec_parse_state(text@) is None && r == Err::<State, ExportError>(
            ExportError::StateCorrupt,
        ),
{
    let j0 = match expect_lit(text, 0, "{\"last_run\":") {
        Some(j) => j,
        None => {
            return Err(ExportError::StateCorrupt);
        },
    };
    let (run, j1) = match scan_u64(text, j0) {
        Some(p) => p,
        None => {
            return Err(ExportError::StateCorrupt);
        },
    };
    let j1b = match expect_lit(text, j1, ",\"last_sync\":") {
        Some(j) => j,
        None => {
            return Err(ExportError::StateCorrupt);
        },
    };
    let (sync, j2) = match scan_u64(text, j1b) {
        Some(p) => p,
        None => {
            return Err(ExportError::StateCorrupt);
        },
    };
    let j2b = match expect_lit(text, j2, ",\"last_history_id\":") {
        Some(j) => j,
        None => {
            return Err(ExportError::StateCorrupt);
        },
    };
    let (hist, j3) = match scan_u64(text, j2b) {
        Some(p) => p,
        None => {
            return Err(ExportError::StateCorrupt);
        },
    };
    let j4 = match expect_lit(text, j3, "}") {
        Some(j) => j,
        None => {
            return Err(ExportError::StateCorrupt);
        },
    };
    let len: usize = text.unicode_len();
    if j4 != len {
        return Err(ExportError::StateCorrupt);
    }
    Ok(State { last_run: run, last_sync: sync, last_history_id: hist })
}

/// Loads a state from the content of the state file, or the all-zero
/// defaults when no file exists.
pub fn load_state(content: Option<&str>) -> (r: Result<State, ExportError>)
    ensures
        content is None ==> r == Ok::<State, ExportError>(
            State { last_run: 0, last_sync: 0, last_history_id: 0 },
        ),
        content matches Some(t) ==> match r {
            Ok(st) => spec_parse_state(t@) == Some(st),
            Err(e) => spec_parse_state(t@) is None && e == ExportError::StateCorrupt,
        },
{
    match content {
        None => Ok(State::initial()),
        Some(t) => parse_state(t),
    }
}

/// A literal placed between a known prefix and suffix is found at the end of
/// the prefix.
proof fn lemma_lit_pos(t: Seq<char>, pre: Seq<char>, lit: Seq<char>, rest: Seq<char>)
    requires
        t == pre + lit + rest,
    ensures
        lit_at(t, pre.len() as int, lit),
{
    assert(t.subrange(pre.len() as int, pre.len() + lit.len() as int) =~= lit);
}

/// A canonical number placed between a known prefix and a suffix that does
/// not begin with a digit is scanned back to its value.
proof fn lemma_scan_pos(t: Seq<char>, pre: Seq<char>, n: u64, rest: Seq<char>)
    requires
        t == pre + dec_digits(n as nat) + rest,
        rest.len() == 0 || !is_digit(rest[0]),
    ensures
        spec_scan_u64(t, pre.len() as int) == Some(
            (n, pre.len() + dec_digits(n as nat).len() as int),
        ),
{
    let d = dec_digits(n as nat);
    let i = pre.len() as int;
    let j = i + d.len();
    lemma_dec_digits(n as nat);
    assert(forall|k: int| i <= k < j ==> t[k] == d[k - i]);
    assert(forall|k: int| i <= k < j ==> is_digit(#[trigger] t[k]));
    assert(j == t.len() || !is_digit(t[j]));
    lemma_digit_run_end_exact(t, i, j);
    assert(t.subrange(i, j) =~= d);
    assert(t[i] == d[0]);
}

/// Round trip of the state codec: the canonical rendering of any state
/// parses back to exactly that state.
pub proof fn lemma_state_round_trip(s: State)
    ensures
        spec_parse_state(state_chars(s)) == Some(s),
{
    let l1 = "{\"last_run\":"@;
    let l2 = ",\"last_sync\":"@;
    let l3 = ",\"last_history_id\":"@;
    let l4 = "}"@;
    let d1 = dec_digits(s.last_run as nat);
    let d2 = dec_digits(s.last_sync as nat);
    let d3 = dec_digits(s.last_history_id as nat);
    let t = state_chars(s);
    reveal_strlit("{\"last_run\":");
    reveal_strlit(",\"last_sync\":");
    reveal_strlit(",\"last_history_id\":");
    reveal_strlit("}");
    lemma_dec_digits(s.last_run as nat);
    lemma_dec_digits(s.last_sync as nat);
    lemma_dec_digits(s.last_history_id as nat);

    assert(t =~= Seq::<char>::empty() + l1 + (d1 + l2 + d2 + l3 + d3 + l4));
    lemma_lit_pos(t, Seq::<char>::empty(), l1, d1 + l2 + d2 + l3 + d3 + l4);

    assert(t =~= l1 + d1 + (l2 + d2 + l3 + d3 + l4));
    lemma_scan_pos(t, l1, s.last_run, l2 + d2 + l3 + d3 + l4);
    assert((l2 + d2 + l3 + d3 + l4)[0] == l2[0]);
    let j1 = l1.len() + d1.len() as int;

    assert(t =~= (l1 + d1) + l2 + (d2 + l3 + d3 + l4));
    lemma_lit_pos(t, l1 + d1, l2, d2 + l3 + d3 + l4);

    assert(t =~= (l1 + d1 + l2) + d2 + (l3 + d3 + l4));
    lemma_scan_pos(t, l1 + d1 + l2, s.last_sync, l3 + d3 + l4);
    assert((l3 + d3 + l4)[0] == l3[0]);
    let j2 = j1 + l2.len() + d2.len();

    assert(t =~= (l1 + d1 + l2 + d2) + l3 + (d3 + l4));
    lemma_lit_pos(t, l1 + d1 + l2 + d2, l3, d3 + l4);

    assert(t =~= (l1 + d1 + l2 + d2 + l3) + d3 + l4);
    lemma_scan_pos(t, l1 + d1 + l2 + d2 + l3, s.last_history_id, l4);
    assert(l4[0] == '}');
    let j3 = j2 + l3.len() + d3.len();

    assert(t =~= (l1 + d1 + l2 + d2 + l3 + d3) + l4 + Seq::<char>::empty());
    lemma_lit_pos(t, l1 + d1 + l2 + d2 + l3 + d3, l4, Seq::<char>::empty());
    assert(j3 + l4.len() == t.len());
}

} // verus!
