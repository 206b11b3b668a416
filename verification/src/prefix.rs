use crate::text::chars_of;
use vstd::prelude::*;
use vstd::string::*;

verus! {

/// The texts of a list of strings.
pub open spec fn texts(values: Seq<String>) -> Seq<Seq<char>> {
    Seq::new(values.len(), |i: int| values[i]@)
}

/// `prefix` starts every one of `names`.
pub open spec fn is_common_prefix(prefix: Seq<char>, names: Seq<Seq<char>>) -> bool {
    forall|i: int| 0 <= i < names.len() ==> prefix.is_prefix_of(#[trigger] names[i])
}

/// `prefix` starts every one of `names` and no longer text does; of no names
/// at all it is the empty text.
pub open spec fn is_longest_common_prefix(prefix: Seq<char>, names: Seq<Seq<char>>) -> bool {
    if names.len() == 0 {
        prefix.len() == 0
    } else {
        &&& is_common_prefix(prefix, names)
        &&& forall|other: Seq<char>| #[trigger]
            is_common_prefix(other, names) ==> other.len() <= prefix.len()
    }
}

/// Every name has a character at position `k`, the same in all of them.
pub open spec fn column_agrees(names: Seq<Seq<char>>, k: int) -> bool {
    forall|i: int|
        0 <= i < names.len() ==> k < (#[trigger] names[i]).len() && names[i][k] == names[0][k]
}

/// The first position at or after `k` at which the names stop agreeing.
pub open spec fn agreement_end(names: Seq<Seq<char>>, k: int) -> int
    decreases names[0].len() - k,
{
    if names.len() > 0 && 0 <= k < names[0].len() && column_agrees(names, k) {
        agreement_end(names, k + 1)
    } else {
        k
    }
}

/// The longest text that starts every one of `names`; empty for no names.
pub open spec fn common_prefix(names: Seq<Seq<char>>) -> Seq<char> {
    if names.len() == 0 {
        Seq::empty()
    } else {
        names[0].take(agreement_end(names, 0))
    }
}

proof fn lemma_agreement_end(names: Seq<Seq<char>>, k: int)
    requires
        names.len() > 0,
        0 <= k <= names[0].len(),
    ensures
        k <= agreement_end(names, k) <= names[0].len(),
        forall|j: int| k <= j < agreement_end(names, k) ==> column_agrees(names, j),
        agreement_end(names, k) < names[0].len() ==> !column_agrees(
            names,
            agreement_end(names, k),
        ),
    decreases names[0].len() - k,
{
    if k < names[0].len() && column_agrees(names, k) {
        lemma_agreement_end(names, k + 1);
    }
}

/// What `common_prefix` names is the longest common prefix.
pub proof fn lemma_common_prefix_is_longest(names: Seq<Seq<char>>)
    ensures
        is_longest_common_prefix(common_prefix(names), names),
{
    if names.len() > 0 {
        let n = agreement_end(names, 0);
        let p = common_prefix(names);
        lemma_agreement_end(names, 0);
        assert forall|i: int| 0 <= i < names.len() implies p.is_prefix_of(
            #[trigger] names[i],
        ) by {
            if n > 0 {
                assert(column_agrees(names, n - 1));
            }
            assert forall|j: int| 0 <= j < n implies p[j] == names[i][j] by {
                assert(column_agrees(names, j));
            }
            assert(p =~= names[i].subrange(0, p.len() as int));
        }
        assert forall|other: Seq<char>| #[trigger]
            is_common_prefix(other, names) implies other.len() <= p.len() by {
            if other.len() > n {
                assert(other.is_prefix_of(names[0]));
                assert(!column_agrees(names, n));
                let i = choose|i: int|
                    0 <= i < names.len() && !(n < (#[trigger] names[i]).len() && names[i][n]
                        == names[0][n]);
                assert(other.is_prefix_of(names[i]));
                assert(names[i].subrange(0, other.len() as int)[n] == other[n]);
                assert(names[0].subrange(0, other.len() as int)[n] == other[n]);
            }
        }
    }
}

/// There is one longest common prefix.
pub proof fn lemma_longest_common_prefix_unique(
    first: Seq<char>,
    second: Seq<char>,
    names: Seq<Seq<char>>,
)
    requires
        is_longest_common_prefix(first, names),
        is_longest_common_prefix(second, names),
    ensures
        first == second,
{
    if names.len() > 0 {
        assert(is_common_prefix(first, names));
        assert(is_common_prefix(second, names));
        assert(first.is_prefix_of(names[0]));
        assert(second.is_prefix_of(names[0]));
    }
    assert(first =~= second);
}

/// Whether `text` begins with the first `n` characters of `pattern`.
fn begins_with_head(text: &Vec<char>, pattern: &Vec<char>, n: usize) -> (found: bool)
    requires
        n <= pattern@.len(),
    ensures
        found == pattern@.take(n as int).is_prefix_of(text@),
{
    if n > text.len() {
        return false;
    }
    let mut i: usize = 0;
    while i < n
        invariant
            i <= n <= text.len(),
            n <= pattern.len(),
            forall|j: int| 0 <= j < i ==> pattern@[j] == text@[j],
        decreases n - i,
    {
        if pattern[i] != text[i] {
            assert(!pattern@.take(n as int).is_prefix_of(text@)) by {
                if pattern@.take(n as int).is_prefix_of(text@) {
                    assert(text@.subrange(0, n as int)[i as int] == text@[i as int]);
                }
            }
            return false;
        }
        i = i + 1;
    }
    assert(pattern@.take(n as int) =~= text@.subrange(0, n as int));
    true
}

/// The longest string that every one of `values` starts with. It begins as
/// the first value and loses its last character for as long as some value
/// does not start with it. For no values it is empty.
pub fn longest_common_prefix(values: &[String]) -> (prefix: String)
    ensures
        prefix@ == common_prefix(texts(values@)),
        is_longest_common_prefix(prefix@, texts(values@)),
{
    let ghost names = texts(values@);
    proof {
        lemma_common_prefix_is_longest(names);
    }
    if values.len() == 0 {
        return String::new();
    }
    let first = chars_of(values[0].as_str());
    let mut n: usize = first.len();
    let mut i: usize = 1;
    proof {
        assert(names.take(1)[0] == first@);
        assert(first@.take(n as int) =~= first@);
        assert(is_common_prefix(first@.take(n as int), names.take(1)));
        assert forall|other: Seq<char>| #[trigger]
            is_common_prefix(other, names.take(1)) implies other.len() <= n by {
            assert(other.is_prefix_of(names.take(1)[0]));
        }
    }
    while i < values.len() && n > 0
        invariant
            1 <= i <= values.len(),
            names == texts(values@),
            first@ == names[0],
            n <= first.len(),
            is_longest_common_prefix(first@.take(n as int), names.take(i as int)),
        decreases values.len() - i,
    {
        let value = chars_of(values[i].as_str());
        let ghost seen = names.take(i as int);
        let ghost upto = names.take(i + 1);
        assert(value@ == names[i as int]);
        assert(upto[0] == first@ && upto[i as int] == value@);
        assert forall|other: Seq<char>| #[trigger]
            is_common_prefix(other, upto) implies other.len() <= n by {
            assert forall|j: int| 0 <= j < seen.len() implies other.is_prefix_of(
                #[trigger] seen[j],
            ) by {
                assert(other.is_prefix_of(upto[j]));
            }
            assert(is_common_prefix(other, seen));
        }
        while !begins_with_head(&value, &first, n)
            invariant
                n <= first.len(),
                1 <= i < values.len(),
                seen == names.take(i as int),
                upto == names.take(i + 1),
                upto.len() == i + 1,
                upto[0] == first@,
                upto[i as int] == value@,
                is_common_prefix(first@.take(n as int), seen),
                forall|other: Seq<char>| #[trigger]
                    is_common_prefix(other, upto) ==> other.len() <= n,
            decreases n,
        {
            assert(n > 0) by {
                assert(first@.take(0).is_prefix_of(value@));
            }
            assert forall|other: Seq<char>| #[trigger]
                is_common_prefix(other, upto) implies other.len() <= n - 1 by {
                if other.len() == n {
                    assert(other.is_prefix_of(upto[0]));
                    assert(other.is_prefix_of(upto[i as int]));
                    assert(other =~= first@.take(n as int));
                }
            }
            assert forall|j: int| 0 <= j < seen.len() implies first@.take(
                n - 1,
            ).is_prefix_of(#[trigger] seen[j]) by {
                assert(first@.take(n as int).is_prefix_of(seen[j]));
                assert(first@.take(n - 1) =~= seen[j].subrange(0, n - 1));
            }
            n = n - 1;
        }
        assert forall|j: int| 0 <= j < upto.len() implies first@.take(n as int).is_prefix_of(
            #[trigger] upto[j],
        ) by {
            if j < i {
                assert(first@.take(n as int).is_prefix_of(seen[j]));
            }
        }
        i = i + 1;
    }
    let prefix = values[0].as_str().substring_char(0, n).to_owned();
    proof {
        assert(prefix@ == first@.take(n as int));
        assert forall|j: int| 0 <= j < names.len() implies prefix@.is_prefix_of(
            #[trigger] names[j],
        ) by {
            if j < i {
                assert(prefix@.is_prefix_of(names.take(i as int)[j]));
            } else {
                assert(prefix@ =~= names[j].subrange(0, 0));
            }
        }
        assert forall|other: Seq<char>| #[trigger]
            is_common_prefix(other, names) implies other.len() <= n by {
            assert forall|j: int| 0 <= j < i implies other.is_prefix_of(
                #[trigger] names.take(i as int)[j],
            ) by {
                assert(other.is_prefix_of(names[j]));
            }
            assert(is_common_prefix(other, names.take(i as int)));
        }
        lemma_longest_common_prefix_unique(prefix@, common_prefix(names), names);
    }
    prefix
}

} // verus!
