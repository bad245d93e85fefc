//! The order of keys: the order of texts, character by character, in which
//! the members of an object are written.

use vstd::prelude::*;

verus! {

/// Whether `a` stands before `b` when texts are ordered character by
/// character, a proper prefix before what it is a prefix of. This is the
/// order of `String`, in which `serde_json` keeps the keys of an object.
pub open spec fn text_before(a: Seq<char>, b: Seq<char>) -> bool
    decreases a.len(),
{
    if b.len() == 0 {
        false
    } else if a.len() == 0 {
        true
    } else if a[0] != b[0] {
        (a[0] as u32) < (b[0] as u32)
    } else {
        text_before(a.drop_first(), b.drop_first())
    }
}

/// Every key stands before those behind it.
pub open spec fn ascending(keys: Seq<Seq<char>>) -> bool {
    forall|i: int, j: int|
        0 <= i < j < keys.len() ==> text_before(#[trigger] keys[i], #[trigger] keys[j])
}

/// The keys are in ascending order, each of them once, and they are the
/// keys that hold a value.
pub open spec fn keys_wf(keys: Seq<Seq<char>>, members: Map<Seq<char>, Seq<char>>) -> bool {
    &&& keys.no_duplicates()
    &&& ascending(keys)
    &&& forall|k: Seq<char>| #[trigger] members.contains_key(k) <==> keys.contains(k)
}

/// The members of an object that holds nothing.
pub open spec fn no_members() -> Map<Seq<char>, Seq<char>> {
    Map::empty()
}

/// The order in which the keys of `members` are written: ascending. Where
/// `members` has infinitely many keys there is no such order, and the
/// result means nothing.
pub open spec fn key_order(members: Map<Seq<char>, Seq<char>>) -> Seq<Seq<char>> {
    choose|keys: Seq<Seq<char>>| keys_wf(keys, members)
}

/// The members as a list of pairs of key and value text, in the order in
/// which they are written.
pub open spec fn members_list(members: Map<Seq<char>, Seq<char>>) -> Seq<(Seq<char>, Seq<char>)> {
    Seq::new(
        key_order(members).len(),
        |i: int| (key_order(members)[i], members[key_order(members)[i]]),
    )
}

/// No text stands before itself.
pub proof fn lemma_text_before_irreflexive(a: Seq<char>)
    ensures
        !text_before(a, a),
    decreases a.len(),
{
    if a.len() > 0 {
        lemma_text_before_irreflexive(a.drop_first());
    }
}

/// Of two texts at most one stands before the other.
pub proof fn lemma_text_before_asymmetric(a: Seq<char>, b: Seq<char>)
    requires
        text_before(a, b),
    ensures
        !text_before(b, a),
    decreases a.len(),
{
    if a.len() > 0 && b.len() > 0 && a[0] == b[0] {
        lemma_text_before_asymmetric(a.drop_first(), b.drop_first());
    }
}

/// The keys of a map can be written in ascending order in one way only.
pub proof fn lemma_key_order_unique(
    first: Seq<Seq<char>>,
    second: Seq<Seq<char>>,
    members: Map<Seq<char>, Seq<char>>,
)
    requires
        keys_wf(first, members),
        keys_wf(second, members),
    ensures
        first == second,
    decreases first.len(),
{
    if first.len() == 0 {
        if second.len() > 0 {
            assert(second.contains(second[0]));
            assert(members.contains_key(second[0]));
            assert(first.contains(second[0]));
        }
        assert(first =~= second);
    } else {
        let head = first[0];
        assert(first.contains(head));
        assert(members.contains_key(head));
        assert(second.contains(head));
        let k = choose|k: int| 0 <= k < second.len() && second[k] == head;
        if k > 0 {
            let other = second[0];
            assert(text_before(other, head));
            assert(second.contains(other));
            assert(members.contains_key(other));
            assert(first.contains(other));
            let m = choose|m: int| 0 <= m < first.len() && first[m] == other;
            if m == 0 {
                lemma_text_before_irreflexive(head);
            } else {
                assert(text_before(first[0], first[m]));
                lemma_text_before_asymmetric(other, head);
            }
            assert(false);
        }
        assert(second[0] == head);
        let rest = members.remove(head);
        let first_rest = first.drop_first();
        let second_rest = second.drop_first();
        assert(keys_wf(first_rest, rest)) by {
            lemma_rest_wf(first, members);
        }
        assert(keys_wf(second_rest, rest)) by {
            lemma_rest_wf(second, members);
        }
        lemma_key_order_unique(first_rest, second_rest, rest);
        assert(first =~= seq![head] + first_rest);
        assert(second =~= seq![head] + second_rest);
    }
}

/// Without their first key, the keys are those of the map without it.
proof fn lemma_rest_wf(keys: Seq<Seq<char>>, members: Map<Seq<char>, Seq<char>>)
    requires
        keys_wf(keys, members),
        keys.len() > 0,
    ensures
        keys_wf(keys.drop_first(), members.remove(keys[0])),
{
    let rest = keys.drop_first();
    let fewer = members.remove(keys[0]);
    assert forall|i: int, j: int| 0 <= i < j < rest.len() implies text_before(
        #[trigger] rest[i],
        #[trigger] rest[j],
    ) by {
        assert(rest[i] == keys[i + 1]);
        assert(rest[j] == keys[j + 1]);
    }
    assert forall|k: Seq<char>| #[trigger] fewer.contains_key(k) <==> rest.contains(k) by {
        if fewer.contains_key(k) {
            assert(members.contains_key(k));
            assert(keys.contains(k));
            let i = choose|i: int| 0 <= i < keys.len() && keys[i] == k;
            assert(i > 0);
            assert(rest[i - 1] == k);
        }
        if rest.contains(k) {
            let i = choose|i: int| 0 <= i < rest.len() && rest[i] == k;
            assert(keys[i + 1] == k);
            assert(keys.contains(k));
            assert(k != keys[0]);
        }
    }
    assert(rest.no_duplicates()) by {
        assert forall|i: int, j: int| 0 <= i < rest.len() && 0 <= j < rest.len() && i != j implies rest[i] != rest[j] by {
            assert(rest[i] == keys[i + 1]);
            assert(rest[j] == keys[j + 1]);
        }
    }
}

/// Of two different texts one stands before the other.
pub proof fn lemma_text_before_total(a: Seq<char>, b: Seq<char>)
    requires
        a != b,
    ensures
        text_before(a, b) || text_before(b, a),
    decreases a.len(),
{
    if a.len() > 0 && b.len() > 0 && a[0] == b[0] {
        if a.drop_first() == b.drop_first() {
            assert(a =~= seq![a[0]] + a.drop_first());
            assert(b =~= seq![b[0]] + b.drop_first());
        }
        lemma_text_before_total(a.drop_first(), b.drop_first());
    } else if a.len() == 0 && b.len() == 0 {
        assert(a =~= b);
    } else if a.len() > 0 && b.len() > 0 {
        if a[0] as u32 == b[0] as u32 {
            vstd::utf8::char_u32_cast(a[0], a[0] as u32);
            vstd::utf8::char_u32_cast(b[0], b[0] as u32);
        }
    }
}

/// What stands before a text stands before all that the text stands
/// before.
pub proof fn lemma_text_before_transitive(a: Seq<char>, b: Seq<char>, c: Seq<char>)
    requires
        text_before(a, b),
        text_before(b, c),
    ensures
        text_before(a, c),
    decreases a.len(),
{
    if a.len() > 0 && a[0] == b[0] && b[0] == c[0] {
        lemma_text_before_transitive(a.drop_first(), b.drop_first(), c.drop_first());
    }
}

/// The keys in ascending order after `key` has been put among them, unless
/// it is one of them already.
pub open spec fn keys_with(keys: Seq<Seq<char>>, key: Seq<char>) -> Seq<Seq<char>>
    decreases keys.len(),
{
    if keys.len() == 0 {
        seq![key]
    } else if keys.last() == key {
        keys
    } else if text_before(keys.last(), key) {
        keys.push(key)
    } else {
        keys_with(keys.drop_last(), key).push(keys.last())
    }
}

/// Putting a key among ascending keys leaves them ascending, and adds this
/// key and no other.
pub proof fn lemma_keys_with(keys: Seq<Seq<char>>, key: Seq<char>)
    requires
        ascending(keys),
    ensures
        ascending(keys_with(keys, key)),
        forall|k: Seq<char>| #[trigger]
            keys_with(keys, key).contains(k) <==> keys.contains(k) || k == key,
    decreases keys.len(),
{
    let after = keys_with(keys, key);
    if keys.len() == 0 {
        assert(after[0] == key);
        assert forall|k: Seq<char>| #[trigger] after.contains(k) <==> keys.contains(k) || k
            == key by {
            if k == key {
                assert(after[0] == k);
            }
        }
    } else if keys.last() == key {
        assert(keys.contains(key)) by {
            assert(keys[keys.len() - 1] == key);
        }
    } else if text_before(keys.last(), key) {
        assert forall|i: int, j: int| 0 <= i < j < after.len() implies text_before(
            #[trigger] after[i],
            #[trigger] after[j],
        ) by {
            if j == keys.len() && i < keys.len() - 1 {
                lemma_text_before_transitive(keys[i], keys.last(), key);
            }
        }
        assert forall|k: Seq<char>| #[trigger] after.contains(k) <==> keys.contains(k) || k
            == key by {
            if after.contains(k) {
                let i = choose|i: int| 0 <= i < after.len() && after[i] == k;
                if i < keys.len() {
                    assert(keys[i] == k);
                }
            }
            if keys.contains(k) {
                let i = choose|i: int| 0 <= i < keys.len() && keys[i] == k;
                assert(after[i] == k);
            }
            if k == key {
                assert(after[keys.len() as int] == k);
            }
        }
    } else {
        let front = keys.drop_last();
        let last = keys.last();
        lemma_text_before_total(last, key);
        assert(ascending(front)) by {
            assert forall|i: int, j: int| 0 <= i < j < front.len() implies text_before(
                #[trigger] front[i],
                #[trigger] front[j],
            ) by {
                assert(front[i] == keys[i] && front[j] == keys[j]);
            }
        }
        lemma_keys_with(front, key);
        let inner = keys_with(front, key);
        assert forall|i: int, j: int| 0 <= i < j < after.len() implies text_before(
            #[trigger] after[i],
            #[trigger] after[j],
        ) by {
            if j == inner.len() {
                assert(inner.contains(inner[i]));
                if front.contains(inner[i]) {
                    let m = choose|m: int| 0 <= m < front.len() && front[m] == inner[i];
                    assert(keys[m] == inner[i]);
                    assert(text_before(keys[m], keys[keys.len() - 1]));
                }
            } else {
                assert(after[i] == inner[i] && after[j] == inner[j]);
            }
        }
        assert forall|k: Seq<char>| #[trigger] after.contains(k) <==> keys.contains(k) || k
            == key by {
            if after.contains(k) {
                let i = choose|i: int| 0 <= i < after.len() && after[i] == k;
                if i < inner.len() {
                    assert(inner[i] == k);
                    assert(inner.contains(k));
                    if front.contains(k) {
                        let m = choose|m: int| 0 <= m < front.len() && front[m] == k;
                        assert(keys[m] == k);
                    }
                } else {
                    assert(keys[keys.len() - 1] == k);
                }
            }
            if keys.contains(k) {
                let m = choose|m: int| 0 <= m < keys.len() && keys[m] == k;
                if m < front.len() {
                    assert(front[m] == k);
                    assert(inner.contains(k));
                    let i = choose|i: int| 0 <= i < inner.len() && inner[i] == k;
                    assert(after[i] == k);
                } else {
                    assert(after[inner.len() as int] == k);
                }
            }
            if k == key {
                assert(inner.contains(k));
                let i = choose|i: int| 0 <= i < inner.len() && inner[i] == k;
                assert(after[i] == k);
            }
        }
    }
}

/// Ascending keys hold no key twice.
pub proof fn lemma_ascending_is_distinct(keys: Seq<Seq<char>>)
    requires
        ascending(keys),
    ensures
        keys.no_duplicates(),
{
    assert forall|i: int, j: int| 0 <= i < keys.len() && 0 <= j < keys.len() && i != j implies keys[i]
        != keys[j] by {
        if i < j {
            assert(text_before(keys[i], keys[j]));
            lemma_text_before_irreflexive(keys[i]);
        } else {
            assert(text_before(keys[j], keys[i]));
            lemma_text_before_irreflexive(keys[i]);
        }
    }
}

/// Members whose keys can be written in ascending order can still be so
/// written when one more member has been put among them.
pub proof fn lemma_insert_keeps_order(
    members: Map<Seq<char>, Seq<char>>,
    key: Seq<char>,
    text: Seq<char>,
)
    requires
        keys_wf(key_order(members), members),
    ensures
        keys_wf(key_order(members.insert(key, text)), members.insert(key, text)),
        key_order(members.insert(key, text)) == keys_with(key_order(members), key),
{
    let keys = key_order(members);
    let after = keys_with(keys, key);
    lemma_keys_with(keys, key);
    lemma_ascending_is_distinct(after);
    assert(keys_wf(after, members.insert(key, text)));
    lemma_key_order_unique(after, key_order(members.insert(key, text)), members.insert(key, text));
}

/// Members that hold nothing are written in the empty order.
pub proof fn lemma_no_members_order()
    ensures
        keys_wf(key_order(no_members()), no_members()),
        key_order(no_members()).len() == 0,
{
    let none: Seq<Seq<char>> = Seq::empty();
    assert(keys_wf(none, no_members()));
    lemma_key_order_unique(none, key_order(no_members()), no_members());
}

} // verus!
