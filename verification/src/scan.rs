use crate::prefix::texts;
use crate::text::{chars_of, chars_start_with, is_dotted};
use vstd::prelude::*;
use vstd::relations::*;
use vstd::seq_lib::*;

verus! {

/// One entry of a directory, as its listing gives it: the name, where it is
/// text, and whether the entry is a directory.
pub struct DirEntryInfo {
    pub name: Option<String>,
    pub is_dir: bool,
}

/// `name` completes `segment`: it starts with it, and is hidden only where
/// the segment itself starts with a dot.
pub open spec fn is_candidate(name: Seq<char>, segment: Seq<char>) -> bool {
    segment.is_prefix_of(name) && (is_dotted(name) ==> is_dotted(segment))
}

/// `entry` is a directory with a name that completes `segment`.
pub open spec fn entry_matches(entry: DirEntryInfo, segment: Seq<char>) -> bool {
    entry.is_dir && entry.name is Some && is_candidate(entry.name->0@, segment)
}

/// The names of the entries that match `segment`, in the order of the
/// listing.
pub open spec fn candidates_of(entries: Seq<DirEntryInfo>, segment: Seq<char>) -> Seq<Seq<char>>
    decreases entries.len(),
{
    if entries.len() == 0 {
        Seq::empty()
    } else if entry_matches(entries.last(), segment) {
        candidates_of(entries.drop_last(), segment).push(entries.last().name->0@)
    } else {
        candidates_of(entries.drop_last(), segment)
    }
}

/// A name is a candidate exactly when some matching entry bears it.
pub proof fn lemma_candidates_are_matching_entries(
    entries: Seq<DirEntryInfo>,
    segment: Seq<char>,
    name: Seq<char>,
)
    ensures
        candidates_of(entries, segment).contains(name) <==> exists|i: int|
            0 <= i < entries.len() && entry_matches(#[trigger] entries[i], segment)
                && entries[i].name->0@ == name,
    decreases entries.len(),
{
    if entries.len() > 0 {
        let rest = entries.drop_last();
        let found = candidates_of(rest, segment);
        lemma_candidates_are_matching_entries(rest, segment, name);
        if candidates_of(entries, segment).contains(name) {
            if entry_matches(entries.last(), segment) && entries.last().name->0@ == name {
                assert(entries[entries.len() - 1] == entries.last());
            } else {
                if entry_matches(entries.last(), segment) {
                    let k = choose|k: int|
                        0 <= k < found.push(entries.last().name->0@).len() && found.push(
                            entries.last().name->0@,
                        )[k] == name;
                    assert(found[k] == name);
                }
                assert(found.contains(name));
                let i = choose|i: int|
                    0 <= i < rest.len() && entry_matches(#[trigger] rest[i], segment)
                        && rest[i].name->0@ == name;
                assert(entries[i] == rest[i]);
            }
        }
        if exists|i: int|
            0 <= i < entries.len() && entry_matches(#[trigger] entries[i], segment)
                && entries[i].name->0@ == name {
            let i = choose|i: int|
                0 <= i < entries.len() && entry_matches(#[trigger] entries[i], segment)
                    && entries[i].name->0@ == name;
            if i == entries.len() - 1 {
                let all = found.push(name);
                assert(all[found.len() as int] == name);
            } else {
                assert(rest[i] == entries[i]);
                assert(found.contains(name));
                let k = choose|k: int| 0 <= k < found.len() && found[k] == name;
                if entry_matches(entries.last(), segment) {
                    assert(found.push(entries.last().name->0@)[k] == name);
                }
            }
        }
    }
}

/// Every candidate starts with the segment.
pub proof fn lemma_candidates_start_with_segment(entries: Seq<DirEntryInfo>, segment: Seq<char>)
    ensures
        forall|k: int|
            0 <= k < candidates_of(entries, segment).len() ==> is_candidate(
                #[trigger] candidates_of(entries, segment)[k],
                segment,
            ),
    decreases entries.len(),
{
    if entries.len() > 0 {
        let found = candidates_of(entries.drop_last(), segment);
        lemma_candidates_start_with_segment(entries.drop_last(), segment);
        assert forall|k: int| 0 <= k < candidates_of(entries, segment).len() implies is_candidate(
            #[trigger] candidates_of(entries, segment)[k],
            segment,
        ) by {
            if k < found.len() {
                assert(candidates_of(entries, segment)[k] == found[k]);
            }
        }
    }
}

/// The names of the directories among `entries` that complete
/// `current_segment`, in the order of the listing. Entries that are no
/// directories or have no name in text are passed over, and so are hidden
/// ones unless the segment starts with a dot.
pub fn matching_names(entries: &Vec<DirEntryInfo>, current_segment: &str) -> (names: Vec<String>)
    ensures
        texts(names@) == candidates_of(entries@, current_segment@),
{
    let segment = chars_of(current_segment);
    let include_hidden = segment.len() > 0 && segment[0] == '.';
    let mut names: Vec<String> = Vec::new();
    assert(texts(names@) =~= candidates_of(entries@.take(0), current_segment@));
    for i in 0..entries.len()
        invariant
            segment@ == current_segment@,
            include_hidden == is_dotted(current_segment@),
            texts(names@) == candidates_of(entries@.take(i as int), current_segment@),
    {
        let ghost before = texts(names@);
        assert(entries@.take(i + 1).drop_last() =~= entries@.take(i as int));
        assert(entries@.take(i + 1).last() == entries@[i as int]);
        let entry = &entries[i];
        if entry.is_dir {
            if let Some(name) = &entry.name {
                let name_chars = chars_of(name.as_str());
                let hidden = name_chars.len() > 0 && name_chars[0] == '.';
                if (include_hidden || !hidden) && chars_start_with(
                    name_chars.as_slice(),
                    segment.as_slice(),
                ) {
                    names.push(name.clone());
                    assert(texts(names@) =~= before.push(name@));
                }
            }
        }
    }
    assert(entries@.take(entries.len() as int) =~= entries@);
    names
}

/// `first` comes no later than `second` where texts are ordered character by
/// character, each by its code point, a text before any that it starts.
pub open spec fn lex_le(first: Seq<char>, second: Seq<char>) -> bool
    decreases first.len(),
{
    if first.len() == 0 {
        true
    } else if second.len() == 0 {
        false
    } else if first[0] == second[0] {
        lex_le(first.drop_first(), second.drop_first())
    } else {
        (first[0] as u32) < (second[0] as u32)
    }
}

/// The order in which names are listed.
pub open spec fn name_order() -> spec_fn(Seq<char>, Seq<char>) -> bool {
    |first: Seq<char>, second: Seq<char>| lex_le(first, second)
}

proof fn lemma_lex_le_reflexive(a: Seq<char>)
    ensures
        lex_le(a, a),
    decreases a.len(),
{
    if a.len() > 0 {
        lemma_lex_le_reflexive(a.drop_first());
    }
}

proof fn lemma_lex_le_antisymmetric(a: Seq<char>, b: Seq<char>)
    requires
        lex_le(a, b),
        lex_le(b, a),
    ensures
        a == b,
    decreases a.len(),
{
    if a.len() > 0 && b.len() > 0 {
        lemma_lex_le_antisymmetric(a.drop_first(), b.drop_first());
        assert(a =~= seq![a[0]] + a.drop_first());
        assert(b =~= seq![b[0]] + b.drop_first());
    } else {
        assert(a =~= b);
    }
}

proof fn lemma_lex_le_transitive(a: Seq<char>, b: Seq<char>, c: Seq<char>)
    requires
        lex_le(a, b),
        lex_le(b, c),
    ensures
        lex_le(a, c),
    decreases a.len(),
{
    if a.len() > 0 && b.len() > 0 && c.len() > 0 {
        if a[0] == b[0] && b[0] == c[0] {
            lemma_lex_le_transitive(a.drop_first(), b.drop_first(), c.drop_first());
        }
    }
}

proof fn lemma_lex_le_connected(a: Seq<char>, b: Seq<char>)
    ensures
        lex_le(a, b) || lex_le(b, a),
    decreases a.len(),
{
    if a.len() > 0 && b.len() > 0 {
        if a[0] == b[0] {
            lemma_lex_le_connected(a.drop_first(), b.drop_first());
        } else {
            vstd::utf8::char_u32_cast(a[0], a[0] as u32);
            vstd::utf8::char_u32_cast(b[0], b[0] as u32);
        }
    }
}

/// The order of names is a total order.
pub proof fn lemma_name_order_is_total()
    ensures
        total_ordering(name_order()),
{
    let r = name_order();
    assert forall|a: Seq<char>| #[trigger] r(a, a) by {
        lemma_lex_le_reflexive(a);
    }
    assert forall|a: Seq<char>, b: Seq<char>| #[trigger] r(a, b) && #[trigger] r(b, a) implies a
        == b by {
        lemma_lex_le_antisymmetric(a, b);
    }
    assert forall|a: Seq<char>, b: Seq<char>, c: Seq<char>| #[trigger]
        r(a, b) && #[trigger] r(b, c) implies r(a, c) by {
        lemma_lex_le_transitive(a, b, c);
    }
    assert forall|a: Seq<char>, b: Seq<char>| #[trigger] r(a, b) || #[trigger] r(b, a) by {
        lemma_lex_le_connected(a, b);
    }
}

/// `names` in the order of names.
pub open spec fn sorted_names(names: Seq<Seq<char>>) -> Seq<Seq<char>> {
    names.sort_by(name_order())
}

/// The candidates for `segment` among `entries`, in the order of names.
pub open spec fn sorted_candidates(entries: Seq<DirEntryInfo>, segment: Seq<char>) -> Seq<
    Seq<char>,
> {
    sorted_names(candidates_of(entries, segment))
}

/// `<[String]>::sort`: afterwards the same strings stand in ascending order.
/// Strings compare by their bytes in UTF-8, which is the order of their
/// characters' code points.
#[verifier::external_body]
pub(crate) fn sort_strings(names: &mut Vec<String>)
    ensures
        sorted_by(texts(final(names)@), name_order()),
        texts(final(names)@).to_multiset() == texts(old(names)@).to_multiset(),
{
    names.sort();
}

/// Puts `names` in the order of names.
pub fn sort_names(names: &mut Vec<String>)
    ensures
        texts(final(names)@) == sorted_names(texts(old(names)@)),
{
    let ghost before = texts(names@);
    sort_strings(names);
    proof {
        lemma_name_order_is_total();
        before.lemma_sort_by_ensures(name_order());
        lemma_sorted_unique(texts(names@), before.sort_by(name_order()), name_order());
    }
}

/// Sorting keeps the names and only them.
pub proof fn lemma_sorted_names_same_members(names: Seq<Seq<char>>)
    ensures
        sorted_names(names).len() == names.len(),
        sorted_by(sorted_names(names), name_order()),
        sorted_names(names).to_multiset() == names.to_multiset(),
        forall|name: Seq<char>| sorted_names(names).contains(name) <==> names.contains(name),
{
    broadcast use vstd::seq_lib::group_to_multiset_ensures;

    lemma_name_order_is_total();
    names.lemma_sort_by_ensures(name_order());
    let sorted = sorted_names(names);
    assert(sorted.len() == sorted.to_multiset().len());
    assert(names.len() == names.to_multiset().len());
    assert forall|name: Seq<char>| sorted.contains(name) <==> names.contains(name) by {
        assert(sorted.contains(name) <==> sorted.to_multiset().count(name) > 0);
        assert(names.contains(name) <==> names.to_multiset().count(name) > 0);
    }
}

/// The sorted names of the directories among `entries` that complete
/// `current_segment`.
pub fn scan_candidates(entries: &Vec<DirEntryInfo>, current_segment: &str) -> (names: Vec<String>)
    ensures
        texts(names@) == sorted_candidates(entries@, current_segment@),
{
    let mut names = matching_names(entries, current_segment);
    sort_names(&mut names);
    names
}

} // verus!
