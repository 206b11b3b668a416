use vstd::prelude::*;

verus! {

/// Where the cursor comes to rest when it moves back from `cursor` over
/// every slash directly before it.
pub open spec fn skip_slashes_back(value: Seq<char>, cursor: int) -> int
    decreases cursor,
{
    if 0 < cursor <= value.len() && value[cursor - 1] == '/' {
        skip_slashes_back(value, cursor - 1)
    } else {
        cursor
    }
}

/// The start of the segment that `cursor` stands in or behind: the position
/// after the last slash before the cursor, or the start of the value.
pub open spec fn segment_start(value: Seq<char>, cursor: int) -> int
    decreases cursor,
{
    if 0 < cursor <= value.len() && value[cursor - 1] != '/' {
        segment_start(value, cursor - 1)
    } else {
        cursor
    }
}

/// The start of the path segment before `cursor`: back over the slashes
/// directly before it, then back over the name before those.
pub open spec fn previous_segment_start(value: Seq<char>, cursor: int) -> int {
    segment_start(value, skip_slashes_back(value, cursor))
}

/// The text before the segment being typed: up to and with the last slash
/// before the cursor.
pub open spec fn parent_prefix_of(value: Seq<char>, cursor: int) -> Seq<char> {
    value.take(segment_start(value, cursor))
}

/// The segment being typed: what stands between the last slash and the
/// cursor.
pub open spec fn current_segment_of(value: Seq<char>, cursor: int) -> Seq<char> {
    value.subrange(segment_start(value, cursor), cursor)
}

/// The start of a segment lies at the start of the value or behind a slash,
/// and no slash stands between it and the cursor.
pub proof fn lemma_segment_start(value: Seq<char>, cursor: int)
    requires
        0 <= cursor <= value.len(),
    ensures
        0 <= segment_start(value, cursor) <= cursor,
        segment_start(value, cursor) == 0 || value[segment_start(value, cursor) - 1] == '/',
        forall|j: int| segment_start(value, cursor) <= j < cursor ==> value[j] != '/',
    decreases cursor,
{
    if cursor > 0 && value[cursor - 1] != '/' {
        lemma_segment_start(value, cursor - 1);
    }
}

/// Moving back over slashes passes nothing but slashes, and stops at the
/// start of the value or behind another character.
pub proof fn lemma_skip_slashes_back(value: Seq<char>, cursor: int)
    requires
        0 <= cursor <= value.len(),
    ensures
        0 <= skip_slashes_back(value, cursor) <= cursor,
        skip_slashes_back(value, cursor) == 0 || value[skip_slashes_back(value, cursor) - 1]
            != '/',
        forall|j: int| skip_slashes_back(value, cursor) <= j < cursor ==> value[j] == '/',
    decreases cursor,
{
    if cursor > 0 && value[cursor - 1] == '/' {
        lemma_skip_slashes_back(value, cursor - 1);
    }
}

/// The previous segment starts before the cursor, unless the cursor is at
/// the start already.
pub proof fn lemma_previous_segment_start(value: Seq<char>, cursor: int)
    requires
        0 <= cursor <= value.len(),
    ensures
        0 <= previous_segment_start(value, cursor) <= cursor,
        cursor > 0 ==> previous_segment_start(value, cursor) < cursor,
        previous_segment_start(value, cursor) == 0 || value[previous_segment_start(value, cursor)
            - 1] == '/',
{
    lemma_skip_slashes_back(value, cursor);
    lemma_segment_start(value, skip_slashes_back(value, cursor));
}

/// The start of the segment that the cursor stands in or behind.
pub fn find_segment_start(chars: &[char], cursor: usize) -> (start: usize)
    requires
        cursor <= chars@.len(),
    ensures
        start == segment_start(chars@, cursor as int),
        start <= cursor,
{
    let mut start = cursor;
    while start > 0 && chars[start - 1] != '/'
        invariant
            start <= cursor <= chars@.len(),
            segment_start(chars@, cursor as int) == segment_start(chars@, start as int),
        decreases start,
    {
        start = start - 1;
    }
    start
}

/// The start of the path segment before the cursor.
pub fn find_previous_segment_start(chars: &[char], cursor: usize) -> (start: usize)
    requires
        cursor <= chars@.len(),
    ensures
        start == previous_segment_start(chars@, cursor as int),
        start <= cursor,
{
    let mut start = cursor;
    while start > 0 && chars[start - 1] == '/'
        invariant
            start <= cursor <= chars@.len(),
            skip_slashes_back(chars@, cursor as int) == skip_slashes_back(chars@, start as int),
        decreases start,
    {
        start = start - 1;
    }
    find_segment_start(chars, start)
}

} // verus!
