//! Lists of identifiers in the order of their text, without repetition.

use crate::text::characters;
use vstd::prelude::*;

verus! {

/// `left` stands before `right`: the first character in which they differ decides, and a text
/// stands before its own continuations.
pub open spec fn text_less(left: Seq<char>, right: Seq<char>) -> bool
    decreases left.len(),
{
    if right.len() == 0 {
        false
    } else if left.len() == 0 {
        true
    } else if left[0] != right[0] {
        left[0] < right[0]
    } else {
        text_less(left.skip(1), right.skip(1))
    }
}

pub(crate) fn text_precedes(left: &str, right: &str) -> (less: bool)
    ensures
        less == text_less(left@, right@),
{
    let left_chars = characters(left);
    let right_chars = characters(right);
    let mut index: usize = 0;
    proof {
        assert(left@.skip(0) =~= left@);
        assert(right@.skip(0) =~= right@);
    }
    while index < left_chars.len() && index < right_chars.len()
        invariant
            left_chars@ == left@,
            right_chars@ == right@,
            index <= left@.len(),
            index <= right@.len(),
            text_less(left@, right@) == text_less(
                left@.skip(index as int),
                right@.skip(index as int),
            ),
        decreases left_chars.len() - index,
    {
        proof {
            assert(left@.skip(index as int)[0] == left@[index as int]);
            assert(right@.skip(index as int)[0] == right@[index as int]);
            assert(left@.skip(index as int).skip(1) =~= left@.skip(index + 1));
            assert(right@.skip(index as int).skip(1) =~= right@.skip(index + 1));
        }
        if left_chars[index] != right_chars[index] {
            return left_chars[index] < right_chars[index];
        }
        index += 1;
    }
    index < right_chars.len()
}

pub proof fn lemma_text_less_irreflexive(text: Seq<char>)
    ensures
        !text_less(text, text),
    decreases text.len(),
{
    if text.len() > 0 {
        lemma_text_less_irreflexive(text.skip(1));
    }
}

pub proof fn lemma_text_less_transitive(a: Seq<char>, b: Seq<char>, c: Seq<char>)
    requires
        text_less(a, b),
        text_less(b, c),
    ensures
        text_less(a, c),
    decreases a.len(),
{
    if a.len() > 0 && a[0] == b[0] && b[0] == c[0] {
        lemma_text_less_transitive(a.skip(1), b.skip(1), c.skip(1));
    }
}

pub proof fn lemma_text_less_total(a: Seq<char>, b: Seq<char>)
    ensures
        a == b || text_less(a, b) || text_less(b, a),
    decreases a.len(),
{
    if a.len() > 0 && b.len() > 0 && a[0] == b[0] {
        lemma_text_less_total(a.skip(1), b.skip(1));
        if a.skip(1) == b.skip(1) {
            assert(a.skip(1).len() == a.len() - 1);
            assert(b.skip(1).len() == b.len() - 1);
            assert forall|i: int| 0 <= i < a.len() implies a[i] == b[i] by {
                if i > 0 {
                    assert(a.skip(1)[i - 1] == b.skip(1)[i - 1]);
                }
            }
            assert(a =~= b);
        }
    } else if a.len() == 0 && b.len() == 0 {
        assert(a =~= b);
    }
}

/// Ascending, and so without repetition.
pub open spec fn ascending(ids: Seq<Seq<char>>) -> bool {
    forall|i: int, j: int| 0 <= i < j < ids.len() ==> text_less(#[trigger] ids[i], #[trigger] ids[j])
}

/// `ids` lists exactly the members of `set`, ascending. There is only one such list.
pub open spec fn lists(ids: Seq<Seq<char>>, set: Set<Seq<char>>) -> bool {
    &&& ascending(ids)
    &&& ids.to_set() =~= set
}

/// Puts `id` at its place in an ascending list, unless it stands there already.
pub(crate) fn insert_ordered(ids: &mut Vec<String>, id: String)
    requires
        ascending(old(ids).deep_view()),
    ensures
        ascending(final(ids).deep_view()),
        final(ids).deep_view().to_set() == old(ids).deep_view().to_set().insert(id@),
{
    let ghost before = ids.deep_view();
    let ghost new_id = id@;
    let mut index: usize = 0;
    while index < ids.len() && text_precedes(ids[index].as_str(), id.as_str())
        invariant
            ids.deep_view() == before,
            ids@.len() == before.len(),
            index <= ids.len(),
            new_id == id@,
            forall|i: int| 0 <= i < index ==> text_less(#[trigger] before[i], new_id),
        decreases ids.len() - index,
    {
        index = index + 1;
    }
    if index < ids.len() && ids[index] == id {
        proof {
            assert(before[index as int] == new_id);
            assert(before.to_set().insert(new_id) =~= before.to_set());
        }
        return;
    }
    ids.insert(index, id);
    proof {
        let after = ids.deep_view();
        assert(after =~= before.insert(index as int, new_id));
        assert forall|j: int| index <= j < before.len() implies text_less(
            new_id,
            #[trigger] before[j],
        ) by {
            lemma_text_less_total(before[index as int], new_id);
            if j > index {
                lemma_text_less_transitive(new_id, before[index as int], before[j]);
            }
        }
        assert forall|i: int, j: int| 0 <= i < j < after.len() implies text_less(
            #[trigger] after[i],
            #[trigger] after[j],
        ) by {
            let old_i = if i < index { i } else { i - 1 };
            let old_j = if j < index { j } else { j - 1 };
            if i == index {
                assert(after[j] == before[old_j]);
            } else if j == index {
                assert(after[i] == before[old_i]);
            } else {
                assert(after[i] == before[old_i]);
                assert(after[j] == before[old_j]);
            }
        }
        assert forall|id: Seq<char>| after.to_set().contains(id) <==> before.to_set().insert(
            new_id,
        ).contains(id) by {
            if after.contains(id) {
                let i = after.index_of(id);
                if i != index {
                    let old_i = if i < index { i } else { i - 1 };
                    assert(before[old_i] == id);
                }
            }
            if before.contains(id) {
                let i = before.index_of(id);
                let new_i = if i < index { i } else { i + 1 };
                assert(after[new_i] == id);
            }
            assert(after[index as int] == new_id);
        }
        assert(after.to_set() =~= before.to_set().insert(new_id));
    }
}

/// Two ascending lists with the same members are the same list.
pub proof fn lemma_lists_unique(left: Seq<Seq<char>>, right: Seq<Seq<char>>, set: Set<Seq<char>>)
    requires
        lists(left, set),
        lists(right, set),
    ensures
        left == right,
    decreases left.len(),
{
    if left.len() == 0 {
        if right.len() > 0 {
            assert(right.to_set().contains(right[0]));
            assert(left.contains(right[0]));
        }
        assert(left =~= right);
    } else {
        assert(left.to_set().contains(left[0]));
        assert(right.contains(left[0]));
        assert(right.to_set().contains(right[0]));
        assert(left.contains(right[0]));
        let in_right = right.index_of(left[0]);
        let in_left = left.index_of(right[0]);
        if in_right > 0 {
            lemma_text_less_irreflexive(left[0]);
            if in_left > 0 {
                lemma_text_less_transitive(left[0], right[0], left[0]);
            }
        }
        let rest = set.remove(left[0]);
        assert forall|id: Seq<char>| left.skip(1).to_set().contains(id) <==> rest.contains(id) by {
            lemma_skip_first(left, id);
        }
        assert forall|id: Seq<char>| right.skip(1).to_set().contains(id) <==> rest.contains(id) by {
            lemma_skip_first(right, id);
        }
        assert(left.skip(1).to_set() =~= rest);
        assert(right.skip(1).to_set() =~= rest);
        lemma_lists_unique(left.skip(1), right.skip(1), rest);
        assert forall|i: int| 0 <= i < left.len() implies left[i] == right[i] by {
            if i > 0 {
                assert(left.skip(1)[i - 1] == right.skip(1)[i - 1]);
            }
        }
        assert(left =~= right);
    }
}

proof fn lemma_skip_first(ids: Seq<Seq<char>>, id: Seq<char>)
    requires
        ascending(ids),
        ids.len() > 0,
    ensures
        ids.skip(1).contains(id) <==> (ids.contains(id) && id != ids[0]),
{
    if ids.skip(1).contains(id) {
        let i = ids.skip(1).index_of(id);
        assert(ids[i + 1] == id);
        assert(text_less(ids[0], ids[i + 1]));
        lemma_text_less_irreflexive(id);
    }
    if ids.contains(id) && id != ids[0] {
        let i = ids.index_of(id);
        assert(ids.skip(1)[i - 1] == id);
    }
}

} // verus!
