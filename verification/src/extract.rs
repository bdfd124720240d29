use vstd::prelude::*;
use vstd::seq_lib::group_to_multiset_ensures;

use crate::error::ExportError;

verus! {

/// Raw visit row read from the snapshot database.
#[derive(Clone, Copy, PartialEq, Eq, Structural, Debug)]
pub struct VisitRecord {
    /// Visit identifier; the export cursor counts in these.
    pub id: u64,
    /// Reference into the place table.
    pub place_id: u64,
    /// Visit timestamp, microseconds since the Unix epoch.
    pub visit_date: i64,
    /// Visit type code, carried through unused.
    pub visit_type: u8,
}

/// A stored URL, keyed by its place identifier.
#[derive(Debug)]
pub struct PlaceRecord {
    pub id: u64,
    pub url: String,
}

/// One exported history entry.
#[derive(Debug)]
pub struct HistoryEntry {
    /// Human-readable local-timezone rendering of the visit timestamp.
    pub date: String,
    /// The visited URL.
    pub url: String,
    /// Raw visit timestamp, microseconds since the Unix epoch.
    pub visit_date: i64,
}

/// The visit records with identifiers strictly above `since`, in their
/// original order.
pub open spec fn new_visits(vs: Seq<VisitRecord>, since: u64) -> Seq<VisitRecord>
    decreases vs.len(),
{
    if vs.len() == 0 {
        Seq::empty()
    } else {
        let rest = new_visits(vs.drop_last(), since);
        if vs.last().id > since {
            rest.push(vs.last())
        } else {
            rest
        }
    }
}

pub open spec fn sorted_by_id(vs: Seq<VisitRecord>) -> bool {
    forall|p: int, q: int| 0 <= p < q < vs.len() ==> vs[p].id <= vs[q].id
}

/// The URL of the first place record carrying `id`, if any.
pub open spec fn spec_find_url(places: Seq<PlaceRecord>, id: u64) -> Option<Seq<char>>
    decreases places.len(),
{
    if places.len() == 0 {
        None
    } else if places[0].id == id {
        Some(places[0].url@)
    } else {
        spec_find_url(places.drop_first(), id)
    }
}

/// URL and raw timestamp of each visit whose place reference resolves,
/// in visit order; a dangling reference drops that one visit.
pub open spec fn resolved(vs: Seq<VisitRecord>, places: Seq<PlaceRecord>) -> Seq<(Seq<char>, i64)>
    decreases vs.len(),
{
    if vs.len() == 0 {
        Seq::empty()
    } else {
        let rest = resolved(vs.drop_last(), places);
        match spec_find_url(places, vs.last().place_id) {
            Some(u) => rest.push((u, vs.last().visit_date)),
            None => rest,
        }
    }
}

/// Every visit kept by `new_visits` lies strictly above the cursor.
pub proof fn lemma_new_visits_above(vs: Seq<VisitRecord>, since: u64)
    ensures
        forall|k: int|
            0 <= k < new_visits(vs, since).len() ==> #[trigger] new_visits(vs, since)[k].id
                > since,
    decreases vs.len(),
{
    if vs.len() > 0 {
        lemma_new_visits_above(vs.drop_last(), since);
        let rest = new_visits(vs.drop_last(), since);
        let whole = new_visits(vs, since);
        assert forall|k: int| 0 <= k < whole.len() implies #[trigger] whole[k].id > since by {
            if vs.last().id > since {
                assert(whole == rest.push(vs.last()));
                if k < rest.len() {
                    assert(whole[k] == rest[k]);
                } else {
                    assert(whole[k] == vs.last());
                }
            } else {
                assert(whole == rest);
            }
        }
    }
}

/// No re-export: a batch that holds exactly the visits newer than the
/// cursor, in whatever order, never yields a record with an identifier at or
/// below the cursor.
pub proof fn lemma_no_reexport(visits: Seq<VisitRecord>, batch: Seq<VisitRecord>, since: u64)
    requires
        batch.to_multiset() == new_visits(visits, since).to_multiset(),
    ensures
        forall|i: int| 0 <= i < batch.len() ==> #[trigger] batch[i].id > since,
{
    broadcast use group_to_multiset_ensures;

    let fresh = new_visits(visits, since);
    lemma_new_visits_above(visits, since);
    assert forall|i: int| 0 <= i < batch.len() implies #[trigger] batch[i].id > since by {
        assert(batch.contains(batch[i]));
        assert(batch.to_multiset().count(batch[i]) > 0);
        assert(fresh.contains(batch[i]));
        let j = choose|j: int| 0 <= j < fresh.len() && fresh[j] == batch[i];
        assert(fresh[j].id > since);
    }
}

/// Keeps exactly the visits newer than the cursor: no record with an
/// identifier at or below `since_id` is ever yielded.
pub fn filter_new(visits: &Vec<VisitRecord>, since_id: u64) -> (r: Vec<VisitRecord>)
    ensures
        r@ == new_visits(visits@, since_id),
        forall|k: int| 0 <= k < r@.len() ==> r@[k].id > since_id,
{
    let mut out: Vec<VisitRecord> = Vec::new();
    let mut i: usize = 0;
    while i < visits.len()
        invariant
            i <= visits@.len(),
            out@ == new_visits(visits@.subrange(0, i as int), since_id),
            forall|k: int| 0 <= k < out@.len() ==> out@[k].id > since_id,
        decreases visits@.len() - i,
    {
        proof {
            assert(visits@.subrange(0, i + 1).drop_last() =~= visits@.subrange(0, i as int));
            assert(visits@.subrange(0, i + 1).last() == visits@[i as int]);
        }
        let v = visits[i];
        if v.id > since_id {
            out.push(v);
        }
        i = i + 1;
    }
    proof {
        assert(visits@.subrange(0, visits@.len() as int) =~= visits@);
    }
    out
}

/// Inserting an element anywhere adds exactly it to the sequence's contents.
proof fn lemma_insert_to_multiset(s: Seq<VisitRecord>, i: int, a: VisitRecord)
    requires
        0 <= i <= s.len(),
    ensures
        s.insert(i, a).to_multiset() == s.to_multiset().insert(a),
{
    broadcast use group_to_multiset_ensures;

    let t = s.insert(i, a);
    assert(t[i] == a);
    assert(t.remove(i) =~= s);
    assert(t.to_multiset().count(a) > 0);
    assert(t.remove(i).to_multiset() =~= t.to_multiset().remove(t[i]));
    assert forall|x: VisitRecord|
        t.to_multiset().count(x) == #[trigger] s.to_multiset().insert(a).count(x) by {
        if x == a {
            assert(s.to_multiset().count(a) == t.to_multiset().remove(a).count(a));
        } else {
            assert(s.to_multiset().count(x) == t.to_multiset().remove(a).count(x));
        }
    }
    assert(t.to_multiset() =~= s.to_multiset().insert(a));
}

/// Orders a batch of visit records by ascending identifier, keeping exactly
/// the same records.
pub fn sort_visits(visits: &Vec<VisitRecord>) -> (r: Vec<VisitRecord>)
    ensures
        sorted_by_id(r@),
        r@.to_multiset() == visits@.to_multiset(),
        r@.len() == visits@.len(),
{
    broadcast use group_to_multiset_ensures;

    let mut out: Vec<VisitRecord> = Vec::new();
    let mut i: usize = 0;
    while i < visits.len()
        invariant
            i <= visits@.len(),
            sorted_by_id(out@),
            out@.to_multiset() == visits@.subrange(0, i as int).to_multiset(),
            out@.len() == i,
        decreases visits@.len() - i,
    {
        let v = visits[i];
        let mut k: usize = 0;
        while k < out.len() && out[k].id <= v.id
            invariant
                k <= out@.len(),
                forall|p: int| 0 <= p < k ==> out@[p].id <= v.id,
            decreases out@.len() - k,
        {
            k = k + 1;
        }
        let ghost prior = out@;
        out.insert(k, v);
        proof {
            lemma_insert_to_multiset(prior, k as int, v);
            assert(out@.to_multiset() == prior.to_multiset().insert(v));
            assert(visits@.subrange(0, i + 1) =~= visits@.subrange(0, i as int).push(
                visits@[i as int],
            ));
            vstd::seq_lib::to_multiset_build(visits@.subrange(0, i as int), visits@[i as int]);
            assert(sorted_by_id(out@)) by {
                assert(forall|n: int| 0 <= n < k ==> out@[n] == prior[n]);
                assert(out@[k as int] == v);
                assert(forall|n: int| k < n < out@.len() ==> out@[n] == prior[n - 1]);
                assert(forall|n: int| k <= n < prior.len() ==> v.id <= #[trigger] prior[n].id);
            }
        }
        i = i + 1;
    }
    proof {
        assert(visits@.subrange(0, visits@.len() as int) =~= visits@);
    }
    out
}

/// Looks a place reference up in a fetched batch of place records.
pub fn find_url(places: &Vec<PlaceRecord>, place_id: u64) -> (r: Option<String>)
    ensures
        r matches Some(u) ==> spec_find_url(places@, place_id) == Some(u@),
        r is None ==> spec_find_url(places@, place_id) is None,
{
    let mut i: usize = 0;
    proof {
        assert(places@.subrange(0, places@.len() as int) =~= places@);
    }
    while i < places.len()
        invariant
            i <= places@.len(),
            spec_find_url(places@, place_id) == spec_find_url(
                places@.subrange(i as int, places@.len() as int),
                place_id,
            ),
            forall|k: int| 0 <= k < i ==> places@[k].id != place_id,
        decreases places@.len() - i,
    {
        proof {
            let tail = places@.subrange(i as int, places@.len() as int);
            assert(tail[0] == places@[i as int]);
            assert(tail.drop_first() =~= places@.subrange(i + 1, places@.len() as int));
        }
        if places[i].id == place_id {
            return Some(places[i].url.clone());
        }
        i = i + 1;
    }
    proof {
        assert(places@.subrange(places@.len() as int, places@.len() as int).len() == 0);
    }
    None
}

/// Resolves a place reference, or reports the dangling reference: exactly
/// the references with no matching place record yield `MissingPlace`.
pub fn resolve_url(places: &Vec<PlaceRecord>, place_id: u64) -> (r: Result<String, ExportError>)
    ensures
        r matches Ok(u) ==> spec_find_url(places@, place_id) == Some(u@),
        r is Err ==> spec_find_url(places@, place_id) is None && r == Err::<String, ExportError>(
            ExportError::MissingPlace,
        ),
{
    match find_url(places, place_id) {
        Some(u) => Ok(u),
        None => Err(ExportError::MissingPlace),
    }
}

/// Relies on chrono: `TimeZone::timestamp_millis_opt` on `Local` maps an
/// in-range millisecond timestamp to exactly one local date-time (and an
/// out-of-range one to none, without panicking), and `Display` for
/// `DateTime` renders it — local date-time, a space, the offset — never as
/// an empty string. The result depends on the machine's timezone, so nothing
/// more is claimed of it.
#[verifier::external_body]
fn format_local_millis(millis: i64) -> (r: Option<String>)
    ensures
        r matches Some(s) ==> s@.len() > 0,
{
    match chrono::TimeZone::timestamp_millis_opt(&chrono::Local, millis) {
        chrono::LocalResult::Single(dt) => Some(dt.to_string()),
        _ => None,
    }
}

/// The visit timestamp in milliseconds: the stored microsecond count divided
/// by one thousand, rounded toward zero.
pub fn visit_millis(visit_date: i64) -> (r: i64)
    ensures
        visit_date >= 0 ==> r == visit_date as int / 1000,
        visit_date < 0 ==> r == -((-(visit_date as int)) / 1000),
{
    if visit_date >= 0 {
        ((visit_date as u64) / 1000) as i64
    } else {
        let m: u64 = ((-(visit_date + 1)) as u64) + 1;
        assert(m == -(visit_date as int));
        -((m / 1000) as i64)
    }
}

/// Resolves each visit's place reference to a URL and formats its timestamp.
/// A visit whose place reference is dangling is skipped; every other visit
/// yields exactly one entry, in visit order, carrying its URL and its raw
/// timestamp.
pub fn resolve_entries(visits: &Vec<VisitRecord>, places: &Vec<PlaceRecord>) -> (r: Vec<
    HistoryEntry,
>)
    ensures
        r@.len() == resolved(visits@, places@).len(),
        forall|k: int|
            0 <= k < r@.len() ==> r@[k].url@ == resolved(visits@, places@)[k].0 && r@[k].visit_date
                == resolved(visits@, places@)[k].1,
{
    let mut out: Vec<HistoryEntry> = Vec::new();
    let mut i: usize = 0;
    while i < visits.len()
        invariant
            i <= visits@.len(),
            out@.len() == resolved(visits@.subrange(0, i as int), places@).len(),
            forall|k: int|
                0 <= k < out@.len() ==> out@[k].url@ == resolved(
                    visits@.subrange(0, i as int),
                    places@,
                )[k].0 && out@[k].visit_date == resolved(visits@.subrange(0, i as int), places@)[k].1,
        decreases visits@.len() - i,
    {
        proof {
            assert(visits@.subrange(0, i + 1).drop_last() =~= visits@.subrange(0, i as int));
            assert(visits@.subrange(0, i + 1).last() == visits@[i as int]);
        }
        let v = visits[i];
        match resolve_url(places, v.place_id) {
            Ok(url) => {
                let millis = visit_millis(v.visit_date);
                let date = match format_local_millis(millis) {
                    Some(s) => s,
                    None => String::new(),
                };
                out.push(HistoryEntry { date, url, visit_date: v.visit_date });
            },
            // A dangling place reference is data noise: skip the one record.
            Err(_) => {},
        }
        i = i + 1;
    }
    proof {
        assert(visits@.subrange(0, visits@.len() as int) =~= visits@);
    }
    out
}

/// The full extraction step: from a batch of raw visit rows and place rows,
/// the entries to export for everything newer than the cursor, ordered by
/// ascending visit identifier.
pub fn extract(visits: &Vec<VisitRecord>, places: &Vec<PlaceRecord>, since_id: u64) -> (r: Vec<
    HistoryEntry,
>)
    ensures
        exists|batch: Seq<VisitRecord>|
            {
                &&& #[trigger] batch.to_multiset() == new_visits(visits@, since_id).to_multiset()
                &&& sorted_by_id(batch)
                &&& r@.len() == resolved(batch, places@).len()
                &&& forall|k: int|
                    0 <= k < r@.len() ==> r@[k].url@ == resolved(batch, places@)[k].0
                        && r@[k].visit_date == resolved(batch, places@)[k].1
            },
{
    let fresh = filter_new(visits, since_id);
    let ordered = sort_visits(&fresh);
    let entries = resolve_entries(&ordered, places);
    proof {
        assert(ordered@.to_multiset() == new_visits(visits@, since_id).to_multiset());
    }
    entries
}

} // verus!
