//! The record store's in-memory operations on the whole collection.
use vstd::prelude::*;
use crate::entry::{
    apply_payload, game_from_payload, now, new_id, takes_payload, EntryView, GameEntry,
    GamePayload,
};
use crate::error::LibraryError;
use crate::text::trim;

verus! {

/// The values of a collection's entries.
pub open spec fn entries(v: Seq<GameEntry>) -> Seq<EntryView> {
    v.map_values(|e: GameEntry| e@)
}

/// Some entry has this id.
pub open spec fn has_id(s: Seq<EntryView>, id: Seq<char>) -> bool {
    exists|i: int| 0 <= i < s.len() && (#[trigger] s[i]).id == id
}

/// The first position holding this id.
pub open spec fn is_first_with_id(s: Seq<EntryView>, id: Seq<char>, i: int) -> bool {
    &&& 0 <= i < s.len()
    &&& s[i].id == id
    &&& forall|k: int| 0 <= k < i ==> (#[trigger] s[k]).id != id
}

/// The collection with every entry of this id taken out, order kept.
pub open spec fn without_id(s: Seq<EntryView>, id: Seq<char>) -> Seq<EntryView>
    decreases s.len(),
{
    if s.len() == 0 {
        s
    } else if s.last().id == id {
        without_id(s.drop_last(), id)
    } else {
        without_id(s.drop_last(), id).push(s.last())
    }
}

/// No two entries share an id.
pub open spec fn ids_unique(s: Seq<EntryView>) -> bool {
    forall|i: int, j: int| 0 <= i < j < s.len() ==> (#[trigger] s[i]).id != (#[trigger] s[j]).id
}

/// Newest `updated_at` first.
pub open spec fn newest_first(s: Seq<EntryView>) -> bool {
    forall|a: int, b: int| 0 <= a < b < s.len() ==> newer_or_same(s, a, b)
}

/// Whether a stored document holds nothing, so that the collection is empty.
pub fn is_blank_document(content: &str) -> (r: bool)
    ensures
        r == (trim(content@).len() == 0),
{
    crate::text::is_blank(content)
}

/// Whether no two entries share an id, as a loaded collection must.
pub fn has_unique_ids(library: &Vec<GameEntry>) -> (r: bool)
    ensures
        r == ids_unique(entries(library@)),
{
    let ghost s = entries(library@);
    let mut j: usize = 0;
    while j < library.len()
        invariant
            j <= library@.len(),
            s == entries(library@),
            forall|a: int, b: int| 0 <= a < b < j ==> (#[trigger] s[a]).id != (#[trigger] s[b]).id,
        decreases library@.len() - j,
    {
        let mut i: usize = 0;
        while i < j
            invariant
                i <= j < library@.len(),
                s == entries(library@),
                forall|a: int| 0 <= a < i ==> (#[trigger] s[a]).id != s[j as int].id,
            decreases j - i,
        {
            if library[i].id == library[j].id {
                assert(s[i as int].id == s[j as int].id);
                return false;
            }
            i = i + 1;
        }
        j = j + 1;
    }
    true
}

/// Builds a new entry from the payload, with a fresh id and both timestamps set to now,
/// and appends it.
pub fn add_game(library: &mut Vec<GameEntry>, payload: GamePayload, scanned: Option<u64>) -> (r: GameEntry)
    ensures
        entries(final(library)@) == entries(old(library)@).push(r@),
        takes_payload(payload, scanned, None, r@),
        r.added_at == r.updated_at,
        r.id@.len() == 36,
{
    let mut entry = game_from_payload(payload, None, scanned);
    entry.id = new_id();
    entry.added_at = now();
    entry.updated_at = entry.added_at;
    let copy = entry.copy();
    library.push(copy);
    assert(entries(library@) =~= entries(old(library)@).push(entry@));
    entry
}

/// Position of the first entry with this id.
fn find_index(library: &Vec<GameEntry>, id: &String) -> (r: Option<usize>)
    ensures
        match r {
            Some(i) => is_first_with_id(entries(library@), id@, i as int),
            None => !has_id(entries(library@), id@),
        },
{
    let mut i: usize = 0;
    while i < library.len()
        invariant
            i <= library@.len(),
            forall|k: int| 0 <= k < i ==> (#[trigger] entries(library@)[k]).id != id@,
        decreases library@.len() - i,
    {
        if library[i].id == *id {
            return Some(i);
        }
        i = i + 1;
    }
    None
}

/// Replaces the first entry with this id by the payload applied to it, keeping its id
/// and `added_at` and setting `updated_at` to now (never earlier than `added_at`); `NotFound`, with nothing changed,
/// where no entry has the id.
pub fn update_game(library: &mut Vec<GameEntry>, id: String, payload: GamePayload, scanned: Option<u64>) -> (r: Result<GameEntry, LibraryError>)
    ensures
        r is Err <==> !has_id(entries(old(library)@), id@),
        r is Err ==> r == Err::<GameEntry, LibraryError>(LibraryError::NotFound) && final(library)@ == old(library)@,
        r matches Ok(e) ==> exists|i: int| {
            &&& is_first_with_id(entries(old(library)@), id@, i)
            &&& entries(final(library)@) == entries(old(library)@).update(i, e@)
            &&& e.id@ == id@
            &&& e.added_at == old(library)@[i].added_at
            &&& e.added_at.spec_le(e.updated_at)
            &&& takes_payload(payload, scanned, old(library)@[i].size_bytes, e@)
        },
{
    match find_index(library, &id) {
        None => Err(LibraryError::NotFound),
        Some(i) => {
            let mut entry = apply_payload(payload, library[i].copy(), scanned);
            entry.id = id;
            let at = now();
            entry.updated_at = if entry.added_at.le(&at) { at } else { entry.added_at };
            let copy = entry.copy();
            library.set(i, copy);
            assert(entries(library@) =~= entries(old(library)@).update(i as int, entry@));
            Ok(entry)
        },
    }
}

/// Takes out every entry with this id; `NotFound`, with nothing changed, where none has it.
pub fn remove_game(library: &mut Vec<GameEntry>, id: String) -> (r: Result<(), LibraryError>)
    ensures
        r is Err <==> !has_id(entries(old(library)@), id@),
        r is Err ==> r == Err::<(), LibraryError>(LibraryError::NotFound) && final(library)@ == old(library)@,
        r is Ok ==> entries(final(library)@) == without_id(entries(old(library)@), id@),
{
    let mut kept: Vec<GameEntry> = Vec::new();
    let mut i: usize = 0;
    let mut found = false;
    while i < library.len()
        invariant
            i <= library@.len(),
            entries(kept@) == without_id(entries(library@).subrange(0, i as int), id@),
            found <==> has_id(entries(library@).subrange(0, i as int), id@),
        decreases library@.len() - i,
    {
        let ghost before = entries(library@).subrange(0, i as int);
        let ghost next = entries(library@).subrange(0, i + 1);
        assert(next.drop_last() == before);
        assert(next.last() == library@[i as int]@);
        if library[i].id == id {
            found = true;
            assert(next[i as int].id == id@);
        } else {
            kept.push(library[i].copy());
            assert(entries(kept@) =~= without_id(before, id@).push(library@[i as int]@));
            assert(has_id(next, id@) ==> has_id(before, id@)) by {
                if has_id(next, id@) {
                    let k = choose|k: int| 0 <= k < next.len() && (#[trigger] next[k]).id == id@;
                    assert(before[k] == next[k]);
                }
            }
        }
        assert(has_id(before, id@) ==> has_id(next, id@)) by {
            if has_id(before, id@) {
                let k = choose|k: int| 0 <= k < before.len() && (#[trigger] before[k]).id == id@;
                assert(next[k] == before[k]);
            }
        }
        i = i + 1;
    }
    assert(entries(library@).subrange(0, library@.len() as int) == entries(library@));
    if !found {
        return Err(LibraryError::NotFound);
    }
    *library = kept;
    Ok(())
}

/// Sorts the collection by `updated_at`, newest first, keeping the entries.
pub fn sort_newest_first(library: &mut Vec<GameEntry>)
    ensures
        newest_first(entries(final(library)@)),
        entries(final(library)@).to_multiset() == entries(old(library)@).to_multiset(),
{
    if library.len() == 0 {
        return;
    }
    let mut i: usize = 1;
    while i < library.len()
        invariant
            1 <= i <= library@.len(),
            library@.len() == old(library)@.len(),
            forall|a: int, b: int| 0 <= a < b < i ==> newer_or_same(entries(library@), a, b),
            entries(library@).to_multiset() == entries(old(library)@).to_multiset(),
        decreases library@.len() - i,
    {
        let mut j: usize = i;
        while j > 0 && !library[j].updated_at.le(&library[j - 1].updated_at)
            invariant
                0 <= j <= i < library@.len(),
                library@.len() == old(library)@.len(),
                entries(library@).to_multiset() == entries(old(library)@).to_multiset(),
                forall|a: int, b: int| 0 <= a < b <= i && a != j && b != j ==> newer_or_same(entries(library@), a, b),
                forall|b: int| j < b <= i ==> #[trigger] newer_or_same(entries(library@), j as int, b),
            decreases j,
        {
            let ghost before = entries(library@);
            let moved = library.remove(j);
            library.insert(j - 1, moved);
            proof {
                let after = entries(library@);
                assert(after == before.update(j - 1, before[j as int]).update(j as int, before[j - 1]));
                lemma_swap_multiset(before, j - 1, j as int);
                assert forall|a: int, b: int| 0 <= a < b <= i && a != j - 1 && b != j - 1 implies newer_or_same(after, a, b) by {
                    if b == j {
                        assert(newer_or_same(before, a, j - 1));
                    } else if a == j {
                        assert(newer_or_same(before, j - 1, b));
                    } else {
                        assert(newer_or_same(before, a, b));
                    }
                }
                assert forall|b: int| j - 1 < b <= i implies #[trigger] newer_or_same(after, j - 1, b) by {
                    if b > j {
                        assert(newer_or_same(before, j as int, b));
                    }
                }
            }
            j = j - 1;
        }
        proof {
            let e = entries(library@);
            assert forall|a: int, b: int| 0 <= a < b < i + 1 implies newer_or_same(e, a, b) by {
                if b == j && a < j - 1 {
                    assert(newer_or_same(e, a, j - 1));
                    assert(newer_or_same(e, j - 1, j as int));
                }
            }
        }
        i = i + 1;
    }
}

/// The entry at `a` was updated no earlier than the one at `b`.
pub open spec fn newer_or_same(s: Seq<EntryView>, a: int, b: int) -> bool {
    s[b].updated_at.spec_le(s[a].updated_at)
}

proof fn lemma_swap_multiset(s: Seq<EntryView>, a: int, b: int)
    requires
        0 <= a < b < s.len(),
    ensures
        s.update(a, s[b]).update(b, s[a]).to_multiset() == s.to_multiset(),
{
    broadcast use vstd::seq_lib::group_seq_properties;
    let t = s.update(a, s[b]);
    s.to_multiset_ensures();
    t.to_multiset_ensures();
    t.update(b, s[a]).to_multiset_ensures();
    assert(t.to_multiset() == s.to_multiset().remove(s[a]).insert(s[b]));
    assert(t.update(b, s[a]).to_multiset() == t.to_multiset().remove(s[b]).insert(s[a]));
    assert(t.update(b, s[a]).to_multiset() =~= s.to_multiset());
}

/// An entry without the id survives `without_id`; with no entry of the id, nothing changes.
pub proof fn lemma_without_absent_id(s: Seq<EntryView>, id: Seq<char>)
    requires
        !has_id(s, id),
    ensures
        without_id(s, id) == s,
    decreases s.len(),
{
    if s.len() > 0 {
        let t = s.drop_last();
        assert(s[s.len() - 1].id != id);
        assert(!has_id(t, id)) by {
            if has_id(t, id) {
                let k = choose|k: int| 0 <= k < t.len() && (#[trigger] t[k]).id == id;
                assert(s[k] == t[k]);
            }
        }
        lemma_without_absent_id(t, id);
        assert(t.push(s.last()) == s);
    }
}

/// No entry of the id is left by `without_id`.
pub proof fn lemma_without_id_removes_all(s: Seq<EntryView>, id: Seq<char>)
    ensures
        !has_id(without_id(s, id), id),
    decreases s.len(),
{
    if s.len() > 0 {
        let t = s.drop_last();
        lemma_without_id_removes_all(t, id);
        if s.last().id != id {
            let w = without_id(t, id).push(s.last());
            if has_id(w, id) {
                let k = choose|k: int| 0 <= k < w.len() && (#[trigger] w[k]).id == id;
                assert(k < w.len() - 1);
                assert(without_id(t, id)[k] == w[k]);
            }
        }
    }
}

/// Where ids are unique, removing an id that is present takes out exactly one entry,
/// and the id is absent afterwards, so a second removal of it fails with `NotFound`.
pub proof fn lemma_remove_known_id(s: Seq<EntryView>, id: Seq<char>)
    requires
        ids_unique(s),
        has_id(s, id),
    ensures
        without_id(s, id).len() == s.len() - 1,
        !has_id(without_id(s, id), id),
    decreases s.len(),
{
    lemma_without_id_removes_all(s, id);
    let t = s.drop_last();
    assert(ids_unique(t)) by {
        assert forall|i: int, j: int| 0 <= i < j < t.len() implies (#[trigger] t[i]).id != (#[trigger] t[j]).id by {
            assert(s[i] == t[i] && s[j] == t[j]);
        }
    }
    if s.last().id == id {
        assert(!has_id(t, id)) by {
            if has_id(t, id) {
                let k = choose|k: int| 0 <= k < t.len() && (#[trigger] t[k]).id == id;
                assert(s[k] == t[k]);
                assert(s[k].id != s[s.len() - 1].id);
            }
        }
        lemma_without_absent_id(t, id);
    } else {
        assert(has_id(t, id)) by {
            let k = choose|k: int| 0 <= k < s.len() && (#[trigger] s[k]).id == id;
            assert(k != s.len() - 1);
            assert(t[k] == s[k]);
        }
        lemma_remove_known_id(t, id);
    }
}

} // verus!
