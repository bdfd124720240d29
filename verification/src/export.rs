use vstd::prelude::*;

use crate::extract::HistoryEntry;
use crate::num::{int_chars, append_i64};

verus! {

/// A character as it appears inside a quoted string of the export file:
/// quotes and backslashes carry a backslash escape.
pub open spec fn escape_char(c: char) -> Seq<char> {
    if c == '"' || c == '\\' {
        seq!['\\', c]
    } else {
        seq![c]
    }
}

/// A whole string escaped for the export file.
pub open spec fn escaped(s: Seq<char>) -> Seq<char>
    decreases s.len(),
{
    if s.len() == 0 {
        Seq::empty()
    } else {
        escaped(s.drop_last()) + escape_char(s.last())
    }
}

/// The rendering of one exported entry.
pub open spec fn entry_chars(date: Seq<char>, url: Seq<char>, visit_date: int) -> Seq<char> {
    "{\"date\":\""@ + escaped(date) + "\",\"url\":\""@ + escaped(url) + "\",\"visit_date\":"@
        + int_chars(visit_date) + "}"@
}

/// The renderings of a batch of entries, separated by commas.
pub open spec fn entries_chars(es: Seq<HistoryEntry>) -> Seq<char>
    decreases es.len(),
{
    if es.len() == 0 {
        Seq::empty()
    } else if es.len() == 1 {
        entry_chars(es[0].date@, es[0].url@, es[0].visit_date as int)
    } else {
        entries_chars(es.drop_last()) + seq![','] + entry_chars(
            es.last().date@,
            es.last().url@,
            es.last().visit_date as int,
        )
    }
}

/// The full export file: the batch as a structured ordered list.
pub open spec fn export_chars(es: Seq<HistoryEntry>) -> Seq<char> {
    seq!['['] + entries_chars(es) + seq![']']
}

/// Relies on std's `String::push`: appends the given character to the end of
/// the string.
#[verifier::external_body]
fn push_char(out: &mut String, c: char)
    ensures
        final(out)@ == old(out)@ + seq![c],
{
    out.push(c);
}

/// Appends `s` with quotes and backslashes escaped.
fn append_escaped(out: &mut String, s: &str)
    ensures
        final(out)@ == old(out)@ + escaped(s@),
{
    let len: usize = s.unicode_len();
    let mut k: usize = 0;
    proof {
        assert(s@.subrange(0, 0) =~= Seq::<char>::empty());
        assert(out@ =~= out@ + escaped(s@.subrange(0, 0)));
    }
    while k < len
        invariant
            k <= len,
            len == s@.len(),
            out@ == old(out)@ + escaped(s@.subrange(0, k as int)),
        decreases len - k,
    {
        proof {
            assert(s@.subrange(0, k + 1).drop_last() =~= s@.subrange(0, k as int));
            assert(s@.subrange(0, k + 1).last() == s@[k as int]);
        }
        let c = s.get_char(k);
        if c == '"' {
            out.append("\\\"");
            proof {
                reveal_strlit("\\\"");
                assert(out@ =~= old(out)@ + escaped(s@.subrange(0, k + 1)));
            }
        } else if c == '\\' {
            out.append("\\\\");
            proof {
                reveal_strlit("\\\\");
                assert(out@ =~= old(out)@ + escaped(s@.subrange(0, k + 1)));
            }
        } else {
            push_char(out, c);
            proof {
                assert(out@ =~= old(out)@ + escaped(s@.subrange(0, k + 1)));
            }
        }
        k = k + 1;
    }
    proof {
        assert(s@.subrange(0, s@.len() as int) =~= s@);
    }
}

/// Appends the rendering of one entry.
fn append_entry(out: &mut String, e: &HistoryEntry)
    ensures
        final(out)@ == old(out)@ + entry_chars(e.date@, e.url@, e.visit_date as int),
{
    out.append("{\"date\":\"");
    append_escaped(out, e.date.as_str());
    out.append("\",\"url\":\"");
    append_escaped(out, e.url.as_str());
    out.append("\",\"visit_date\":");
    append_i64(out, e.visit_date);
    out.append("}");
    proof {
        assert(out@ =~= old(out)@ + entry_chars(e.date@, e.url@, e.visit_date as int));
    }
}

/// Serializes a batch of entries as the export file's ordered list.
pub fn render_export(entries: &Vec<HistoryEntry>) -> (r: String)
    ensures
        r@ == export_chars(entries@),
{
    let mut out = String::new();
    out.append("[");
    proof {
        reveal_strlit("[");
        assert(entries@.subrange(0, 0) =~= Seq::<HistoryEntry>::empty());
        assert(out@ =~= seq!['['] + entries_chars(entries@.subrange(0, 0)));
    }
    let mut i: usize = 0;
    while i < entries.len()
        invariant
            i <= entries@.len(),
            out@ == seq!['['] + entries_chars(entries@.subrange(0, i as int)),
        decreases entries@.len() - i,
    {
        proof {
            assert(entries@.subrange(0, i + 1).drop_last() =~= entries@.subrange(0, i as int));
            assert(entries@.subrange(0, i + 1).last() == entries@[i as int]);
        }
        if i > 0 {
            out.append(",");
            proof {
                reveal_strlit(",");
            }
        }
        append_entry(&mut out, &entries[i]);
        proof {
            if i == 0 {
                assert(entries@.subrange(0, 1).len() == 1);
                assert(entries@.subrange(0, 1)[0] == entries@[0]);
                assert(out@ =~= seq!['['] + entries_chars(entries@.subrange(0, 1)));
            } else {
                assert(out@ =~= seq!['['] + entries_chars(entries@.subrange(0, i + 1)));
            }
        }
        i = i + 1;
    }
    out.append("]");
    proof {
        reveal_strlit("]");
        assert(entries@.subrange(0, entries@.len() as int) =~= entries@);
        assert(out@ =~= export_chars(entries@));
    }
    out
}

} // verus!
