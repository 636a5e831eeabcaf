//! Stable ordering by a key of two numbers and a text, the order the picker
//! and suggestion lists are shown in.
//!
//! Texts compare character by character by code point, which for UTF-8 is
//! the same order as comparing their bytes.
use vstd::prelude::*;

verus! {

/// `a` sorts before `b`: at the first position where they differ the char of
/// `a` is smaller, or `a` is a proper prefix of `b`.
pub open spec fn lex_less(a: Seq<char>, b: Seq<char>) -> bool
    decreases a.len(),
{
    if a.len() == 0 {
        b.len() > 0
    } else if b.len() == 0 {
        false
    } else if a[0] != b[0] {
        a[0] < b[0]
    } else {
        lex_less(a.drop_first(), b.drop_first())
    }
}

pub proof fn lemma_lex_irreflexive(a: Seq<char>)
    ensures
        !lex_less(a, a),
    decreases a.len(),
{
    if a.len() > 0 {
        lemma_lex_irreflexive(a.drop_first());
    }
}

pub proof fn lemma_lex_transitive(a: Seq<char>, b: Seq<char>, c: Seq<char>)
    requires
        lex_less(a, b),
        lex_less(b, c),
    ensures
        lex_less(a, c),
    decreases a.len(),
{
    if a.len() > 0 && b.len() > 0 && c.len() > 0 && a[0] == b[0] && b[0] == c[0] {
        lemma_lex_transitive(a.drop_first(), b.drop_first(), c.drop_first());
    }
}

pub proof fn lemma_lex_total(a: Seq<char>, b: Seq<char>)
    ensures
        a == b || lex_less(a, b) || lex_less(b, a),
    decreases a.len(),
{
    if a.len() > 0 && b.len() > 0 && a[0] == b[0] {
        lemma_lex_total(a.drop_first(), b.drop_first());
        if a.drop_first() == b.drop_first() {
            assert(a =~= seq![a[0]] + a.drop_first());
            assert(b =~= seq![b[0]] + b.drop_first());
        }
    } else if a.len() == 0 && b.len() == 0 {
        assert(a =~= b);
    }
}

/// Comparing texts that agree on their first `i` chars compares their rests.
pub proof fn lemma_lex_skip(a: Seq<char>, b: Seq<char>, i: int)
    requires
        0 <= i <= a.len(),
        i <= b.len(),
        a.take(i) == b.take(i),
    ensures
        lex_less(a, b) == lex_less(a.skip(i), b.skip(i)),
    decreases i,
{
    if i > 0 {
        assert(a[0] == a.take(i)[0]);
        assert(b[0] == b.take(i)[0]);
        assert(a.drop_first().take(i - 1) =~= a.take(i).drop_first());
        assert(b.drop_first().take(i - 1) =~= b.take(i).drop_first());
        lemma_lex_skip(a.drop_first(), b.drop_first(), i - 1);
        assert(a.drop_first().skip(i - 1) =~= a.skip(i));
        assert(b.drop_first().skip(i - 1) =~= b.skip(i));
    } else {
        assert(a.skip(0) =~= a);
        assert(b.skip(0) =~= b);
    }
}

/// Whether `a` sorts before `b` (`lex_less`).
pub fn lex_less_exec(a: &Vec<char>, b: &Vec<char>) -> (res: bool)
    ensures
        res == lex_less(a@, b@),
{
    let mut i: usize = 0;
    while i < a.len() && i < b.len() && a[i] == b[i]
        invariant
            i <= a.len(),
            i <= b.len(),
            a@.take(i as int) == b@.take(i as int),
        decreases a.len() - i,
    {
        assert(a@.take(i + 1) =~= a@.take(i as int).push(a@[i as int]));
        assert(b@.take(i + 1) =~= b@.take(i as int).push(b@[i as int]));
        i += 1;
    }
    proof {
        lemma_lex_skip(a@, b@, i as int);
    }
    if i == a.len() {
        i < b.len()
    } else if i == b.len() {
        false
    } else {
        assert(a@.skip(i as int)[0] == a@[i as int]);
        assert(b@.skip(i as int)[0] == b@[i as int]);
        a[i] < b[i]
    }
}

/// A sort key: a first number, a second number, then a text.
#[derive(Clone, Debug, PartialEq, Eq)]
pub struct SortKey {
    pub major: usize,
    pub minor: usize,
    pub text: Vec<char>,
}

pub struct SortKeyView {
    pub major: nat,
    pub minor: nat,
    pub text: Seq<char>,
}

impl View for SortKey {
    type V = SortKeyView;

    open spec fn view(&self) -> SortKeyView {
        SortKeyView { major: self.major as nat, minor: self.minor as nat, text: self.text@ }
    }
}

pub open spec fn keys_view(keys: Seq<SortKey>) -> Seq<SortKeyView> {
    keys.map_values(|k: SortKey| k@)
}

/// Keys compare by `major`, then `minor`, then `text`.
pub open spec fn key_less(a: SortKeyView, b: SortKeyView) -> bool {
    ||| a.major < b.major
    ||| (a.major == b.major && a.minor < b.minor)
    ||| (a.major == b.major && a.minor == b.minor && lex_less(a.text, b.text))
}

pub proof fn lemma_key_irreflexive(a: SortKeyView)
    ensures
        !key_less(a, a),
{
    lemma_lex_irreflexive(a.text);
}

pub proof fn lemma_key_transitive(a: SortKeyView, b: SortKeyView, c: SortKeyView)
    requires
        key_less(a, b),
        key_less(b, c),
    ensures
        key_less(a, c),
{
    if a.major == b.major && a.minor == b.minor && b.major == c.major && b.minor == c.minor {
        lemma_lex_transitive(a.text, b.text, c.text);
    }
}

pub proof fn lemma_key_total(a: SortKeyView, b: SortKeyView)
    ensures
        a == b || key_less(a, b) || key_less(b, a),
{
    lemma_lex_total(a.text, b.text);
}

/// Whether key `a` sorts before key `b` (`key_less`).
pub fn key_less_exec(a: &SortKey, b: &SortKey) -> (res: bool)
    ensures
        res == key_less(a@, b@),
{
    if a.major != b.major {
        a.major < b.major
    } else if a.minor != b.minor {
        a.minor < b.minor
    } else {
        lex_less_exec(&a.text, &b.text)
    }
}

/// `order` lists every position of `keys` once, in the order a stable sort
/// puts them: by key, and positions with equal keys in their original order.
pub open spec fn is_stable_order(keys: Seq<SortKeyView>, order: Seq<usize>) -> bool {
    &&& order.len() == keys.len()
    &&& forall|k: int| 0 <= k < order.len() ==> #[trigger] order[k] < keys.len()
    &&& forall|a: int, b: int|
        0 <= a < order.len() && 0 <= b < order.len() && a != b ==> #[trigger] order[a]
            != #[trigger] order[b]
    &&& forall|a: int, b: int|
        0 <= a < b < order.len() ==> #[trigger] sorted_pair(keys, order[a], order[b])
}

/// Position `x` comes before position `y` in the stable order of `keys`.
pub open spec fn sorted_pair(keys: Seq<SortKeyView>, x: usize, y: usize) -> bool {
    key_less(keys[x as int], keys[y as int]) || (keys[x as int] == keys[y as int] && x < y)
}

proof fn lemma_insert_keeps_order(keys: Seq<SortKeyView>, order: Seq<usize>, i: usize, pos: int)
    requires
        i < keys.len(),
        order.len() == i,
        0 <= pos <= order.len(),
        forall|k: int| 0 <= k < order.len() ==> #[trigger] order[k] < i,
        forall|a: int, b: int|
            0 <= a < order.len() && 0 <= b < order.len() && a != b ==> #[trigger] order[a]
                != #[trigger] order[b],
        forall|a: int, b: int|
            0 <= a < b < order.len() ==> #[trigger] sorted_pair(keys, order[a], order[b]),
        forall|a: int| 0 <= a < pos ==> !key_less(keys[i as int], #[trigger] keys[order[a] as int]),
        pos < order.len() ==> key_less(keys[i as int], keys[order[pos] as int]),
    ensures
        ({
            let next = order.insert(pos, i);
            &&& forall|k: int| 0 <= k < next.len() ==> #[trigger] next[k] < i + 1
            &&& forall|a: int, b: int|
                0 <= a < next.len() && 0 <= b < next.len() && a != b ==> #[trigger] next[a]
                    != #[trigger] next[b]
            &&& forall|a: int, b: int|
                0 <= a < b < next.len() ==> #[trigger] sorted_pair(keys, next[a], next[b])
        }),
{
    let next = order.insert(pos, i);
    assert forall|a: int, b: int| 0 <= a < b < next.len() implies #[trigger] sorted_pair(
        keys,
        next[a],
        next[b],
    ) by {
        let ki = keys[i as int];
        if a < pos && b < pos {
            assert(sorted_pair(keys, order[a], order[b]));
        } else if a < pos && b == pos {
            let ka = keys[order[a] as int];
            lemma_key_total(ka, ki);
            assert(!key_less(ki, ka));
        } else if a < pos && b > pos {
            assert(sorted_pair(keys, order[a], order[b - 1]));
        } else if a == pos {
            assert(pos < order.len());
            let kp = keys[order[pos] as int];
            let kb = keys[order[b - 1] as int];
            if b - 1 > pos {
                assert(sorted_pair(keys, order[pos], order[b - 1]));
                if key_less(kp, kb) {
                    lemma_key_transitive(ki, kp, kb);
                }
            }
        } else {
            assert(sorted_pair(keys, order[a - 1], order[b - 1]));
        }
    }
    assert forall|a: int, b: int|
        0 <= a < next.len() && 0 <= b < next.len() && a != b implies #[trigger] next[a]
        != #[trigger] next[b] by {
        if a != pos && b != pos {
            let oa = if a < pos {
                a
            } else {
                a - 1
            };
            let ob = if b < pos {
                b
            } else {
                b - 1
            };
            assert(order[oa] != order[ob]);
        } else if a == pos {
            let ob = if b < pos {
                b
            } else {
                b - 1
            };
            assert(order[ob] < i);
        } else {
            let oa = if a < pos {
                a
            } else {
                a - 1
            };
            assert(order[oa] < i);
        }
    }
    assert forall|k: int| 0 <= k < next.len() implies #[trigger] next[k] < i + 1 by {
        if k < pos {
            assert(order[k] < i);
        } else if k > pos {
            assert(order[k - 1] < i);
        }
    }
}

/// The positions of `keys` in stable sorted order (an insertion sort).
pub fn stable_order(keys: &Vec<SortKey>) -> (order: Vec<usize>)
    ensures
        is_stable_order(keys_view(keys@), order@),
{
    let ghost kv = keys_view(keys@);
    let mut order: Vec<usize> = Vec::new();
    let n = keys.len();
    let mut i: usize = 0;
    while i < n
        invariant
            i <= n,
            n == keys.len(),
            kv == keys_view(keys@),
            kv.len() == n,
            order.len() == i,
            forall|k: int| 0 <= k < order.len() ==> #[trigger] order@[k] < i,
            forall|a: int, b: int|
                0 <= a < order.len() && 0 <= b < order.len() && a != b ==> #[trigger] order@[a]
                    != #[trigger] order@[b],
            forall|a: int, b: int|
                0 <= a < b < order.len() ==> #[trigger] sorted_pair(kv, order@[a], order@[b]),
        decreases n - i,
    {
        let mut pos: usize = 0;
        while pos < order.len() && !key_less_exec(&keys[i], &keys[order[pos]])
            invariant
                pos <= order.len(),
                i < n,
                n == keys.len(),
                kv == keys_view(keys@),
                forall|k: int| 0 <= k < order.len() ==> #[trigger] order@[k] < i,
                forall|a: int|
                    0 <= a < pos ==> !key_less(kv[i as int], #[trigger] kv[order@[a] as int]),
            decreases order.len() - pos,
        {
            pos += 1;
        }
        proof {
            lemma_insert_keeps_order(kv, order@, i, pos as int);
        }
        order.insert(pos, i);
        i += 1;
    }
    order
}

} // verus!
