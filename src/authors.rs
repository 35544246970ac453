//! Combining the languages of authority records by author name.
use vstd::prelude::*;
use std::collections::HashMap;
use crate::index::IdIndex;
use crate::language::{empty_bag, merged_bags, BagState, LanguageBag};

verus! {

broadcast use vstd::std_specs::hash::group_hash_axioms;

/// What is known of one author name: how many authority records carry it,
/// and the languages of those records.
pub struct AuthorInfoLang {
    pub n_author_recs: u32,
    pub languages: LanguageBag,
}

impl Default for AuthorInfoLang {
    fn default() -> (r: AuthorInfoLang)
        ensures
            r.n_author_recs == 0,
            r.languages@ == empty_bag(),
    {
        AuthorInfoLang { n_author_recs: 0, languages: LanguageBag::default() }
    }
}

/// The (record, name) pairs of the record names, record by record.
pub open spec fn name_pairs(rec_names: Seq<(u32, Vec<String>)>) -> Seq<(u32, String)>
    decreases rec_names.len(),
{
    if rec_names.len() == 0 {
        seq![]
    } else {
        name_pairs(rec_names.drop_last()) + rec_names.last().1@.map_values(
            |n: String| (rec_names.last().0, n),
        )
    }
}

/// The languages of a record, as a bag: empty if the record has none.
pub open spec fn record_bag(langs: Map<u32, LanguageBag>, rec: u32) -> BagState {
    if langs.contains_key(rec) {
        langs[rec]@
    } else {
        empty_bag()
    }
}

/// The table after taking in the pairs in order: each name maps to its number
/// of records and the merge of their languages, in the order they came.
pub open spec fn author_table(pairs: Seq<(u32, String)>, langs: Map<u32, LanguageBag>) -> Map<
    Seq<char>,
    (nat, BagState),
>
    decreases pairs.len(),
{
    if pairs.len() == 0 {
        Map::empty()
    } else {
        let t = author_table(pairs.drop_last(), langs);
        let (rec, name) = pairs.last();
        let (count, bag) = if t.contains_key(name@) {
            t[name@]
        } else {
            (0, empty_bag())
        };
        let bag = if langs.contains_key(rec) {
            merged_bags(bag, langs[rec]@)
        } else {
            bag
        };
        t.insert(name@, (count + 1, bag))
    }
}

/// The total size of the language bags that the pairs merge.
pub open spec fn merged_size(pairs: Seq<(u32, String)>, langs: Map<u32, LanguageBag>) -> nat
    decreases pairs.len(),
{
    if pairs.len() == 0 {
        0
    } else {
        merged_size(pairs.drop_last(), langs) + record_bag(langs, pairs.last().0).size
    }
}

/// A table entry's size never exceeds the total merged so far, nor its count
/// the number of pairs.
proof fn lemma_author_table_bounds(pairs: Seq<(u32, String)>, langs: Map<u32, LanguageBag>)
    ensures
        forall|k: Seq<char>| #[trigger]
            author_table(pairs, langs).contains_key(k) ==> author_table(pairs, langs)[k].0
                <= pairs.len() && author_table(pairs, langs)[k].1.size <= merged_size(
                pairs,
                langs,
            ),
    decreases pairs.len(),
{
    if pairs.len() > 0 {
        lemma_author_table_bounds(pairs.drop_last(), langs);
    }
}

/// The pairs of the first records come first among the pairs of all records.
proof fn lemma_name_pairs_prefix(rn: Seq<(u32, Vec<String>)>, r: int)
    requires
        0 <= r <= rn.len(),
    ensures
        name_pairs(rn.take(r)).len() <= name_pairs(rn).len(),
        name_pairs(rn).take(name_pairs(rn.take(r)).len() as int) == name_pairs(rn.take(r)),
    decreases rn.len(),
{
    if r == rn.len() {
        assert(rn.take(r) == rn);
    } else {
        let prev = rn.drop_last();
        lemma_name_pairs_prefix(prev, r);
        assert(prev.take(r) == rn.take(r));
        let p = name_pairs(rn.take(r));
        assert(name_pairs(rn) == name_pairs(prev) + rn.last().1@.map_values(
            |n: String| (rn.last().0, n),
        ));
        assert(name_pairs(rn).take(p.len() as int) =~= name_pairs(prev).take(p.len() as int));
    }
}

/// Merging a prefix of the pairs merges no more than all of them.
proof fn lemma_merged_size_prefix(s: Seq<(u32, String)>, n: int, langs: Map<u32, LanguageBag>)
    requires
        0 <= n <= s.len(),
    ensures
        merged_size(s.take(n), langs) <= merged_size(s, langs),
    decreases s.len(),
{
    if n < s.len() {
        assert(s.drop_last().take(n) == s.take(n));
        lemma_merged_size_prefix(s.drop_last(), n, langs);
    } else {
        assert(s.take(n) == s);
    }
}

/// The table has no more names than pairs, and finitely many.
proof fn lemma_author_table_size(pairs: Seq<(u32, String)>, langs: Map<u32, LanguageBag>)
    ensures
        author_table(pairs, langs).dom().finite(),
        author_table(pairs, langs).len() <= pairs.len(),
    decreases pairs.len(),
{
    if pairs.len() > 0 {
        lemma_author_table_size(pairs.drop_last(), langs);
    } else {
        assert(author_table(pairs, langs).dom() =~= Set::empty());
    }
}

/// Combine the names and languages of authority records by name.
///
/// `rec_names` gives the names of each record, `rec_languages` the languages
/// of records; each name of the result carries the number of records with
/// that name and the merge of those records' languages. Each name appears
/// once, in no particular order.
pub fn viaf_author_lang_table(
    rec_names: &Vec<(u32, Vec<String>)>,
    rec_languages: &HashMap<u32, LanguageBag>,
) -> (table: Vec<(String, AuthorInfoLang)>)
    requires
        name_pairs(rec_names@).len() < i32::MAX,
        merged_size(name_pairs(rec_names@), rec_languages@) <= usize::MAX,
    ensures
        ({
            let t = author_table(name_pairs(rec_names@), rec_languages@);
            &&& table@.len() == t.len()
            &&& forall|i: int, j: int|
                0 <= i < j < table@.len() ==> table@[i].0@ != table@[j].0@
            &&& forall|i: int|
                0 <= i < table@.len() ==> #[trigger] t.contains_key(table@[i].0@) && t[table@[i].0@]
                    == (table@[i].1.n_author_recs as nat, table@[i].1.languages@)
            &&& forall|k: Seq<char>| #[trigger]
                t.contains_key(k) ==> exists|i: int| 0 <= i < table@.len() && table@[i].0@ == k
        }),
{
    let ghost langs = rec_languages@;
    let ghost all = name_pairs(rec_names@);
    let mut names = IdIndex::new();
    let mut infos: Vec<AuthorInfoLang> = Vec::new();
    let ghost mut done: Seq<(u32, String)> = seq![];
    for r in 0..rec_names.len()
        invariant
            done == name_pairs(rec_names@.take(r as int)),
            all == name_pairs(rec_names@),
            langs == rec_languages@,
            names.wf(),
            names@.dom() == author_table(done, langs).dom(),
            infos@.len() == names@.len(),
            forall|k: Seq<char>| #[trigger]
                names@.contains_key(k) ==> author_table(done, langs)[k] == (
                    infos@[names@[k] - 1].n_author_recs as nat,
                    infos@[names@[k] - 1].languages@,
                ),
            all.len() < i32::MAX,
            merged_size(all, langs) <= usize::MAX,
            done.len() <= all.len(),
            merged_size(done, langs) <= merged_size(all, langs),
    {
        let rec = rec_names[r].0;
        let bag = rec_languages.get(&rec);
        let count = rec_names[r].1.len();
        for j in 0..count
            invariant
                done == name_pairs(rec_names@.take(r as int)) + rec_names@[r as int].1@.take(
                    j as int,
                ).map_values(|n: String| (rec, n)),
                0 <= r < rec_names@.len(),
                count == rec_names@[r as int].1@.len(),
                rec == rec_names@[r as int].0,
                match bag {
                    Some(b) => langs.contains_key(rec) && *b == langs[rec],
                    None => !langs.contains_key(rec),
                },
                all == name_pairs(rec_names@),
                langs == rec_languages@,
                names.wf(),
                names@.dom() == author_table(done, langs).dom(),
                infos@.len() == names@.len(),
                forall|k: Seq<char>| #[trigger]
                    names@.contains_key(k) ==> author_table(done, langs)[k] == (
                        infos@[names@[k] - 1].n_author_recs as nat,
                        infos@[names@[k] - 1].languages@,
                    ),
                all.len() < i32::MAX,
                merged_size(all, langs) <= usize::MAX,
                done.len() <= all.len(),
                merged_size(done, langs) <= merged_size(all, langs),
        {
            let name = &rec_names[r].1[j];
            let ghost next = done.push((rec, *name));
            let ghost t = author_table(done, langs);
            let ghost old_names = names@;
            let ghost old_infos = infos@;
            proof {
                let names_r = rec_names@[r as int].1@;
                let f = |n: String| (rec, n);
                assert(names_r.take(j + 1).map_values(f) =~= names_r.take(j as int).map_values(
                    f,
                ).push((rec, *name)));
                assert(rec_names@.take(r + 1).drop_last() == rec_names@.take(r as int));
                let whole = name_pairs(rec_names@.take(r + 1));
                assert(whole == name_pairs(rec_names@.take(r as int)) + names_r.map_values(f));
                assert(whole.take(next.len() as int) =~= next);
                lemma_name_pairs_prefix(rec_names@, r + 1);
                assert(all.take(next.len() as int) =~= next);
                lemma_merged_size_prefix(all, next.len() as int, langs);
                assert(next.drop_last() == done);
                lemma_author_table_bounds(done, langs);
                lemma_author_table_size(done, langs);
            }
            let id = names.intern(name.as_str());
            let slot = (id - 1) as usize;
            if slot == infos.len() {
                infos.push(AuthorInfoLang::default());
            }
            proof {
                if !t.contains_key(name@) {
                    assert(infos@[slot as int].n_author_recs == 0);
                }
            }
            let mut languages = infos[slot].languages.duplicate();
            match bag {
                Some(b) => languages.merge_from(b),
                None => {},
            }
            let info = AuthorInfoLang { n_author_recs: infos[slot].n_author_recs + 1, languages };
            infos.set(slot, info);
            proof {
                let t2 = author_table(next, langs);
                assert(t2 == t.insert(name@, t2[name@]));
                assert(names@.dom() =~= t2.dom());
                assert forall|k: Seq<char>| #[trigger] names@.contains_key(k) implies t2[k] == (
                    infos@[names@[k] - 1].n_author_recs as nat,
                    infos@[names@[k] - 1].languages@,
                ) by {
                    if k != name@ {
                        assert(old_names.contains_key(k));
                        assert(names@[k] != names@[name@]);
                        assert(infos@[names@[k] - 1] == old_infos[names@[k] - 1]);
                    }
                }
                done = next;
            }
        }
        proof {
            let names_r = rec_names@[r as int].1@;
            assert(names_r.take(count as int) == names_r);
            assert(rec_names@.take(r + 1).drop_last() == rec_names@.take(r as int));
        }
    }
    proof {
        assert(rec_names@.take(rec_names@.len() as int) == rec_names@);
    }
    let ghost t = author_table(all, langs);
    let mut keys = names.key_vec();
    let ghost all_keys = keys@;
    let ghost all_infos = infos@;
    let ghost n = infos@.len();
    let mut table: Vec<(String, AuthorInfoLang)> = Vec::new();
    while infos.len() > 0
        invariant
            n == all_keys.len(),
            n == all_infos.len(),
            keys@ == all_keys.take(infos@.len() as int),
            infos@ == all_infos.take(infos@.len() as int),
            table@.len() + infos@.len() == n,
            forall|i: int|
                0 <= i < table@.len() ==> #[trigger] table@[i].0 == all_keys[n - 1 - i]
                    && table@[i].1 == all_infos[n - 1 - i],
        decreases infos@.len(),
    {
        let info = infos.pop().unwrap();
        let name = keys.pop().unwrap();
        table.push((name, info));
        proof {
            assert(keys@ =~= all_keys.take(infos@.len() as int));
            assert(infos@ =~= all_infos.take(infos@.len() as int));
        }
    }
    proof {
        assert forall|i: int| 0 <= i < table@.len() implies #[trigger] t.contains_key(
            table@[i].0@,
        ) && t[table@[i].0@] == (table@[i].1.n_author_recs as nat, table@[i].1.languages@) by {
            let k = all_keys[n - 1 - i];
            assert(names@.contains_key(k@) && names@[k@] == n - 1 - i + 1);
        }
        assert forall|i: int, j: int| 0 <= i < j < table@.len() implies table@[i].0@
            != table@[j].0@ by {
            let ki = all_keys[n - 1 - i];
            let kj = all_keys[n - 1 - j];
            assert(names@[ki@] == n - i);
            assert(names@[kj@] == n - j);
        }
        assert forall|k: Seq<char>| #[trigger] t.contains_key(k) implies exists|i: int|
            0 <= i < table@.len() && table@[i].0@ == k by {
            let id = names@[k];
            let s = id - 1;
            let i = n - 1 - s;
            assert(names@.contains_key(all_keys[s]@));
            assert(names@[all_keys[s]@] == id);
            assert(table@[i].0@ == k);
        }
    }
    table
}

} // verus!
