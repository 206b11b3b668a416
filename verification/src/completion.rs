use crate::base::text_of;
use crate::prefix::{
    common_prefix, is_common_prefix, lemma_common_prefix_is_longest, longest_common_prefix, texts,
};
use vstd::prelude::*;
use vstd::string::*;

verus! {

/// What is left of `name` behind the typed `segment`, and a slash: the whole
/// name is offered, and the next step descends into it.
pub open spec fn descent_of(name: Seq<char>, segment: Seq<char>) -> Seq<char> {
    name.skip(segment.len() as int) + seq!['/']
}

/// The continuation to offer behind `segment`, given the sorted names that
/// match it. One match is completed and closed with a slash. Several are
/// extended as far as they agree, without a slash; where they agree on no
/// more than was typed, the first of them is completed as if it were alone.
/// There is none without a match, nor where it would be empty.
pub open spec fn ghost_text_of(matches: Seq<Seq<char>>, segment: Seq<char>) -> Option<Seq<char>> {
    if matches.len() == 0 {
        None
    } else {
        let common = common_prefix(matches);
        let text = if matches.len() > 1 && common.len() > segment.len() {
            common.skip(segment.len() as int)
        } else {
            descent_of(matches[0], segment)
        };
        if text.len() == 0 {
            None
        } else {
            Some(text)
        }
    }
}

/// Something is offered exactly when there is a match.
pub proof fn lemma_ghost_text_iff_matches(matches: Seq<Seq<char>>, segment: Seq<char>)
    ensures
        ghost_text_of(matches, segment) is Some <==> matches.len() > 0,
        ghost_text_of(matches, segment) is Some ==> ghost_text_of(matches, segment)->0.len() > 0,
{
}

/// What is offered continues the typed segment within the matches: appended
/// to the segment it gives either the first match and a slash, or a text that
/// every match starts with.
pub proof fn lemma_ghost_text_continues_segment(matches: Seq<Seq<char>>, segment: Seq<char>)
    requires
        is_common_prefix(segment, matches),
        matches.len() > 0,
    ensures
        ghost_text_of(matches, segment) is Some,
        segment + ghost_text_of(matches, segment)->0 == matches[0] + seq!['/'] || is_common_prefix(
            segment + ghost_text_of(matches, segment)->0,
            matches,
        ),
{
    let common = common_prefix(matches);
    lemma_common_prefix_is_longest(matches);
    assert(segment.is_prefix_of(matches[0]));
    if matches.len() > 1 && common.len() > segment.len() {
        assert(common.is_prefix_of(matches[0]));
        assert(segment + common.skip(segment.len() as int) =~= common);
    } else {
        assert(segment + descent_of(matches[0], segment) =~= matches[0] + seq!['/']);
    }
}

/// The rest of `name` behind its first `typed` characters, and a slash.
fn descent_text(name: &str, typed: usize) -> (text: String)
    requires
        typed <= name@.len(),
    ensures
        text@ == name@.skip(typed as int) + seq!['/'],
{
    let len = name.unicode_len();
    let mut text = name.substring_char(typed, len).to_owned();
    proof {
        reveal_strlit("/");
        assert("/"@ =~= seq!['/']);
        assert(name@.subrange(typed as int, len as int) =~= name@.skip(typed as int));
    }
    text.append("/");
    text
}

/// The continuation to offer behind `current_segment`, given the sorted
/// names that match it.
pub fn compute_ghost_text(matches: &[String], current_segment: &str) -> (suggestion: Option<String>)
    requires
        is_common_prefix(current_segment@, texts(matches@)),
    ensures
        text_of(suggestion) == ghost_text_of(texts(matches@), current_segment@),
        suggestion is Some <==> matches@.len() > 0,
{
    let ghost names = texts(matches@);
    if matches.len() == 0 {
        return None;
    }
    let typed = current_segment.unicode_len();
    assert(current_segment@.is_prefix_of(names[0]));
    let text = if matches.len() == 1 {
        descent_text(matches[0].as_str(), typed)
    } else {
        let common = longest_common_prefix(matches);
        let common_len = common.as_str().unicode_len();
        if common_len > typed {
            let extension = common.as_str().substring_char(typed, common_len).to_owned();
            assert(extension@ =~= common@.skip(typed as int));
            extension
        } else {
            descent_text(matches[0].as_str(), typed)
        }
    };
    if text.as_str().unicode_len() == 0 {
        None
    } else {
        Some(text)
    }
}

} // verus!
