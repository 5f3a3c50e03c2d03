//! The order of texts, and sets of texts kept in that order.

use vstd::prelude::*;
use vstd::utf8::encode_utf8;

verus! {

/// How one text stands to another.
pub enum TextOrder {
    Before,
    Same,
    After,
}

/// Whether `a` comes before `b`, and the first place where they part is `k`.
pub open spec fn parts_before(a: Seq<u8>, b: Seq<u8>, k: int) -> bool {
    &&& 0 <= k <= a.len()
    &&& k < b.len()
    &&& forall|i: int| 0 <= i < k ==> a[i] == b[i]
    &&& k < a.len() ==> a[k] < b[k]
}

/// The lexicographic order of byte strings.
pub open spec fn bytes_before(a: Seq<u8>, b: Seq<u8>) -> bool {
    exists|k: int| parts_before(a, b, k)
}

/// The order of texts: that of their bytes in UTF-8.
pub open spec fn text_before(a: Seq<char>, b: Seq<char>) -> bool {
    bytes_before(encode_utf8(a), encode_utf8(b))
}

/// Whether each text comes before all that follow it.
pub open spec fn ascending(texts: Seq<String>) -> bool {
    forall|i: int, j: int|
        0 <= i < j < texts.len() ==> #[trigger] text_before(texts[i]@, texts[j]@)
}

/// Whether a text is among some texts.
pub open spec fn is_among(texts: Seq<String>, text: Seq<char>) -> bool {
    exists|i: int| 0 <= i < texts.len() && (#[trigger] texts[i])@ == text
}

proof fn lemma_bytes_before_transitive(a: Seq<u8>, b: Seq<u8>, c: Seq<u8>)
    requires
        bytes_before(a, b),
        bytes_before(b, c),
    ensures
        bytes_before(a, c),
{
    let k = choose|k: int| parts_before(a, b, k);
    let l = choose|l: int| parts_before(b, c, l);
    if k <= l {
        assert(parts_before(a, c, k));
    } else {
        assert(parts_before(a, c, l));
    }
}

proof fn lemma_bytes_before_irreflexive(a: Seq<u8>)
    ensures
        !bytes_before(a, a),
{
}

/// A text that comes before a second one comes before all that follow it.
pub proof fn text_before_is_transitive(a: Seq<char>, b: Seq<char>, c: Seq<char>)
    requires
        text_before(a, b),
        text_before(b, c),
    ensures
        text_before(a, c),
{
    lemma_bytes_before_transitive(encode_utf8(a), encode_utf8(b), encode_utf8(c));
}

/// No text comes before itself.
pub proof fn text_before_is_strict(a: Seq<char>)
    ensures
        !text_before(a, a),
{
    lemma_bytes_before_irreflexive(encode_utf8(a));
}

/// Of two ascending texts the earlier one ends first, or has the smaller byte
/// where they part; so they are different.
pub proof fn ascending_texts_rise(texts: Seq<String>, s: int, t: int)
    requires
        ascending(texts),
        0 <= s < t < texts.len(),
    ensures
        ({
            let a = encode_utf8(texts[s]@);
            let b = encode_utf8(texts[t]@);
            exists|k: int|
                {
                    &&& 0 <= k < b.len()
                    &&& k <= a.len()
                    &&& a.take(k) == #[trigger] b.take(k)
                    &&& k == a.len() || a[k] < b[k]
                }
        }),
        texts[s]@ != texts[t]@,
{
    let a = encode_utf8(texts[s]@);
    let b = encode_utf8(texts[t]@);
    assert(text_before(texts[s]@, texts[t]@));
    let k = choose|k: int| parts_before(a, b, k);
    assert(a.take(k) =~= b.take(k));
    text_before_is_strict(texts[s]@);
}

/// Ascending texts are determined by which texts are among them.
pub proof fn ascending_texts_are_determined(a: Seq<String>, b: Seq<String>)
    requires
        ascending(a),
        ascending(b),
        forall|text: Seq<char>| #[trigger] is_among(a, text) <==> is_among(b, text),
    ensures
        a.len() == b.len(),
        forall|i: int| 0 <= i < a.len() ==> (#[trigger] a[i])@ == b[i]@,
    decreases a.len(),
{
    if a.len() == 0 {
        if b.len() > 0 {
            assert(is_among(b, b[0]@));
            assert(is_among(a, b[0]@));
        }
    } else {
        assert(is_among(a, a[0]@));
        assert(b.len() > 0);
        let last_a = a.last()@;
        let last_b = b.last()@;
        assert(is_among(a, last_a));
        assert(is_among(b, last_b));
        assert(is_among(a, last_b));
        let i = choose|i: int| 0 <= i < a.len() && (#[trigger] a[i])@ == last_b;
        let j = choose|j: int| 0 <= j < b.len() && (#[trigger] b[j])@ == last_a;
        if last_a != last_b {
            assert(text_before(a[i]@, a[a.len() - 1]@));
            assert(text_before(b[j]@, b[b.len() - 1]@));
            text_before_is_transitive(last_a, last_b, last_a);
            text_before_is_strict(last_a);
        }
        let front_a = a.drop_last();
        let front_b = b.drop_last();
        assert forall|m: int, n: int| 0 <= m < n < front_a.len() implies #[trigger] text_before(
            front_a[m]@,
            front_a[n]@,
        ) by {
            assert(text_before(a[m]@, a[n]@));
        }
        assert forall|m: int, n: int| 0 <= m < n < front_b.len() implies #[trigger] text_before(
            front_b[m]@,
            front_b[n]@,
        ) by {
            assert(text_before(b[m]@, b[n]@));
        }
        assert forall|text: Seq<char>| #[trigger]
            is_among(front_a, text) <==> is_among(front_b, text) by {
            lemma_among_front(a, text);
            lemma_among_front(b, text);
        }
        ascending_texts_are_determined(front_a, front_b);
        assert forall|k: int| 0 <= k < a.len() implies (#[trigger] a[k])@ == b[k]@ by {
            if k < a.len() - 1 {
                assert(front_a[k]@ == front_b[k]@);
            }
        }
    }
}

proof fn lemma_among_front(texts: Seq<String>, text: Seq<char>)
    requires
        ascending(texts),
        texts.len() > 0,
    ensures
        is_among(texts.drop_last(), text) <==> is_among(texts, text) && text != texts.last()@,
{
    let front = texts.drop_last();
    if is_among(front, text) {
        let i = choose|i: int| 0 <= i < front.len() && (#[trigger] front[i])@ == text;
        assert(texts[i]@ == text);
        assert(text_before(texts[i]@, texts[texts.len() - 1]@));
        text_before_is_strict(text);
    }
    if is_among(texts, text) && text != texts.last()@ {
        let i = choose|i: int| 0 <= i < texts.len() && (#[trigger] texts[i])@ == text;
        assert(front[i]@ == text);
    }
}

/// Compares two texts.
pub fn order_of(a: &String, b: &String) -> (order: TextOrder)
    ensures
        order is Before <==> text_before(a@, b@),
        order is After <==> text_before(b@, a@),
        order is Same <==> a@ == b@,
{
    let left = a.as_str().as_bytes();
    let right = b.as_str().as_bytes();
    proof {
        text_before_is_strict(a@);
        if text_before(a@, b@) && text_before(b@, a@) {
            text_before_is_transitive(a@, b@, a@);
        }
    }
    let mut i: usize = 0;
    while i < left.len() && i < right.len()
        invariant
            i <= left.len(),
            i <= right.len(),
            left@ == encode_utf8(a@),
            right@ == encode_utf8(b@),
            a@ == b@ ==> !text_before(a@, b@) && !text_before(b@, a@),
            !(text_before(a@, b@) && text_before(b@, a@)),
            forall|j: int| 0 <= j < i ==> left@[j] == right@[j],
        decreases left.len() - i,
    {
        if left[i] < right[i] {
            assert(parts_before(left@, right@, i as int));
            return TextOrder::Before;
        }
        if right[i] < left[i] {
            assert(parts_before(right@, left@, i as int));
            return TextOrder::After;
        }
        i = i + 1;
    }
    if left.len() < right.len() {
        assert(parts_before(left@, right@, i as int));
        TextOrder::Before
    } else if right.len() < left.len() {
        assert(parts_before(right@, left@, i as int));
        TextOrder::After
    } else {
        assert(left@ =~= right@);
        proof {
            vstd::utf8::encode_utf8_decode_utf8(a@);
            vstd::utf8::encode_utf8_decode_utf8(b@);
        }
        TextOrder::Same
    }
}

/// Adds a text to ascending texts, unless it is among them already.
pub fn add_text(texts: &mut Vec<String>, text: String)
    requires
        ascending(old(texts)@),
    ensures
        ascending(final(texts)@),
        forall|other: Seq<char>| #[trigger]
            is_among(final(texts)@, other) <==> is_among(old(texts)@, other) || other == text@,
{
    let ghost before = texts@;
    let mut i: usize = 0;
    while i < texts.len()
        invariant
            i <= texts.len(),
            texts@ == before,
            ascending(before),
            before == old(texts)@,
            forall|j: int| 0 <= j < i ==> text_before((#[trigger] before[j])@, text@),
        ensures
            i < before.len() ==> text_before(text@, before[i as int]@),
        decreases texts.len() - i,
    {
        match order_of(&texts[i], &text) {
            TextOrder::Before => {
                i = i + 1;
            },
            TextOrder::Same => {
                assert(is_among(before, text@));
                return ;
            },
            TextOrder::After => {
                break ;
            },
        }
    }
    texts.insert(i, text);
    proof {
        let after = texts@;
        assert forall|m: int, n: int| 0 <= m < n < after.len() implies #[trigger] text_before(
            after[m]@,
            after[n]@,
        ) by {
            if m < i && n < i {
                assert(text_before(before[m]@, before[n]@));
            } else if m < i && i < n {
                assert(text_before(before[m]@, before[n - 1]@));
            } else if i < m {
                assert(text_before(before[m - 1]@, before[n - 1]@));
            } else if m == i && n - 1 > i {
                assert(text_before(before[i as int]@, before[n - 1]@));
                text_before_is_transitive(text@, before[i as int]@, before[n - 1]@);
            } else if n == i {
                assert(before[m] == after[m]);
            }
        }
        assert forall|other: Seq<char>| #[trigger]
            is_among(after, other) <==> is_among(before, other) || other == text@ by {
            if is_among(before, other) {
                let k = choose|k: int| 0 <= k < before.len() && (#[trigger] before[k])@ == other;
                if k < i {
                    assert(after[k]@ == other);
                } else {
                    assert(after[k + 1]@ == other);
                }
            }
            if other == text@ {
                assert(after[i as int]@ == other);
            }
            if is_among(after, other) {
                let k = choose|k: int| 0 <= k < after.len() && (#[trigger] after[k])@ == other;
                if k < i {
                    assert(before[k]@ == other);
                } else if k > i {
                    assert(before[k - 1]@ == other);
                }
            }
        }
    }
}

} // verus!
