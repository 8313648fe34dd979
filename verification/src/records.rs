//! The model of the file-backed store: snippets in the order in which their
//! names first came in, no name twice, and the map that this list stands
//! for.

use vstd::prelude::*;
use crate::document::distinct_members;
use crate::snippet::SnippetView;
use crate::storage::Contents;

verus! {

/// Names with their snippets, in order.
pub type Records = Seq<(Seq<char>, SnippetView)>;

/// Whether some record carries `name`.
pub open spec fn has_name(records: Records, name: Seq<char>) -> bool {
    exists|i: int| 0 <= i < records.len() && (#[trigger] records[i]).0 == name
}

/// The place of a record that carries `name`, where there is one.
pub open spec fn index_of(records: Records, name: Seq<char>) -> int {
    choose|i: int| 0 <= i < records.len() && (#[trigger] records[i]).0 == name
}

/// The map that `records` stand for.
pub open spec fn contents_of(records: Records) -> Contents {
    Map::new(
        |name: Seq<char>| has_name(records, name),
        |name: Seq<char>| records[index_of(records, name)].1,
    )
}

/// `records` after `snippet` was stored under `name`: in the place of the
/// record of that name, or at the end where there was none.
pub open spec fn upserted(records: Records, name: Seq<char>, snippet: SnippetView) -> Records {
    if has_name(records, name) {
        records.update(index_of(records, name), (name, snippet))
    } else {
        records.push((name, snippet))
    }
}

/// `records` without the record of `name`.
pub open spec fn without(records: Records, name: Seq<char>) -> Records {
    if has_name(records, name) {
        records.remove(index_of(records, name))
    } else {
        records
    }
}

/// Among distinct names, a record is found where it stands.
pub proof fn lemma_found_at(records: Records, i: int)
    requires
        distinct_members(records),
        0 <= i < records.len(),
    ensures
        has_name(records, records[i].0),
        index_of(records, records[i].0) == i,
        contents_of(records).contains_key(records[i].0),
        contents_of(records)[records[i].0] == records[i].1,
{
    let name = records[i].0;
    assert(has_name(records, name));
    let j = index_of(records, name);
    assert(0 <= j < records.len() && records[j].0 == name);
    if j != i {
        if j < i {
            assert(records[j].0 != records[i].0);
        } else {
            assert(records[i].0 != records[j].0);
        }
    }
}

/// Storing under a name keeps the names distinct and puts the snippet into
/// the map under that name, leaving the rest of the map alone.
pub proof fn lemma_upserted(records: Records, name: Seq<char>, snippet: SnippetView)
    requires
        distinct_members(records),
    ensures
        distinct_members(upserted(records, name, snippet)),
        contents_of(upserted(records, name, snippet)) == contents_of(records).insert(name, snippet),
        upserted(records, name, snippet).len() == records.len() + (if has_name(records, name) {
            0int
        } else {
            1int
        }),
{
    let after = upserted(records, name, snippet);
    if has_name(records, name) {
        let i = index_of(records, name);
        assert(0 <= i < records.len() && records[i].0 == name);
        assert forall|a: int, b: int| 0 <= a < b < after.len() implies (#[trigger] after[a]).0
            != (#[trigger] after[b]).0 by {
            assert(after[a].0 == records[a].0);
            assert(after[b].0 == records[b].0);
        }
        assert forall|n: Seq<char>| has_name(after, n) == has_name(records, n) by {
            if has_name(records, n) {
                let k = index_of(records, n);
                assert(after[k].0 == n);
            }
            if has_name(after, n) {
                let k = index_of(after, n);
                assert(records[k].0 == n);
            }
        }
        assert forall|n: Seq<char>| has_name(after, n) implies contents_of(after)[n] == contents_of(
            records,
        ).insert(name, snippet)[n] by {
            let k = index_of(after, n);
            assert(0 <= k < after.len() && after[k].0 == n);
            lemma_found_at(after, k);
            if n != name {
                assert(k != i);
                assert(records[k].0 == n);
                lemma_found_at(records, k);
            } else {
                lemma_found_at(after, i);
            }
        }
        assert(contents_of(after) =~= contents_of(records).insert(name, snippet));
    } else {
        let last = records.len() as int;
        assert forall|a: int, b: int| 0 <= a < b < after.len() implies (#[trigger] after[a]).0
            != (#[trigger] after[b]).0 by {
            assert(after[a] == records[a]);
            if b < last {
                assert(after[b] == records[b]);
            } else {
                assert(after[b].0 == name);
            }
        }
        assert(after[last].0 == name);
        assert forall|n: Seq<char>| has_name(after, n) == (has_name(records, n) || n == name) by {
            if has_name(records, n) {
                let k = index_of(records, n);
                assert(after[k].0 == n);
            }
            if has_name(after, n) {
                let k = index_of(after, n);
                if k < last {
                    assert(records[k].0 == n);
                }
            }
        }
        assert forall|n: Seq<char>| has_name(after, n) implies contents_of(after)[n] == contents_of(
            records,
        ).insert(name, snippet)[n] by {
            let k = index_of(after, n);
            assert(0 <= k < after.len() && after[k].0 == n);
            lemma_found_at(after, k);
            if n != name {
                assert(k < last);
                assert(records[k].0 == n);
                lemma_found_at(records, k);
            } else {
                lemma_found_at(after, last);
            }
        }
        assert(contents_of(after) =~= contents_of(records).insert(name, snippet));
    }
}

/// Taking a name out keeps the names distinct and takes the name out of the
/// map, leaving the rest of the map alone.
pub proof fn lemma_without(records: Records, name: Seq<char>)
    requires
        distinct_members(records),
    ensures
        distinct_members(without(records, name)),
        contents_of(without(records, name)) == contents_of(records).remove(name),
        without(records, name).len() == records.len() - (if has_name(records, name) {
            1int
        } else {
            0int
        }),
{
    let after = without(records, name);
    if has_name(records, name) {
        let i = index_of(records, name);
        assert(0 <= i < records.len() && records[i].0 == name);
        assert forall|a: int| 0 <= a < after.len() implies #[trigger] after[a] == records[if a < i {
            a
        } else {
            a + 1
        }] by {}
        assert forall|a: int, b: int| 0 <= a < b < after.len() implies (#[trigger] after[a]).0
            != (#[trigger] after[b]).0 by {
            let a0 = if a < i { a } else { a + 1 };
            let b0 = if b < i { b } else { b + 1 };
            assert(after[a] == records[a0]);
            assert(after[b] == records[b0]);
            assert(records[a0].0 != records[b0].0);
        }
        assert forall|n: Seq<char>| has_name(after, n) == (has_name(records, n) && n != name) by {
            if has_name(records, n) && n != name {
                let k = index_of(records, n);
                assert(k != i);
                let k1 = if k < i { k } else { k - 1 };
                assert(after[k1] == records[k]);
                assert(after[k1].0 == n);
            }
            if has_name(after, n) {
                let k = index_of(after, n);
                let k0 = if k < i { k } else { k + 1 };
                assert(after[k] == records[k0]);
                assert(records[k0].0 == n);
                if n == name {
                    lemma_found_at(records, k0);
                }
            }
        }
        assert forall|n: Seq<char>| has_name(after, n) implies contents_of(after)[n] == contents_of(
            records,
        ).remove(name)[n] by {
            let k = index_of(after, n);
            assert(0 <= k < after.len() && after[k].0 == n);
            let k0 = if k < i { k } else { k + 1 };
            assert(after[k] == records[k0]);
            lemma_found_at(after, k);
            lemma_found_at(records, k0);
        }
        assert(contents_of(after) =~= contents_of(records).remove(name));
    } else {
        assert(contents_of(after) =~= contents_of(records).remove(name));
    }
}

/// Distinct names make as many map entries as there are records.
pub proof fn lemma_contents_len(records: Records)
    requires
        distinct_members(records),
    ensures
        contents_of(records).dom().finite(),
        contents_of(records).len() == records.len(),
    decreases records.len(),
{
    if records.len() == 0 {
        assert(contents_of(records).dom() =~= Set::empty());
    } else {
        let front = records.drop_last();
        let last = records.last();
        lemma_contents_len(front);
        assert(!has_name(front, last.0)) by {
            if has_name(front, last.0) {
                let i = choose|i: int| 0 <= i < front.len() && (#[trigger] front[i]).0 == last.0;
                assert(records[i].0 != records[records.len() - 1].0);
            }
        }
        assert(upserted(front, last.0, last.1) =~= records);
        lemma_upserted(front, last.0, last.1);
        assert(!contents_of(front).contains_key(last.0));
    }
}

} // verus!
