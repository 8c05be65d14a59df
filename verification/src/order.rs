//! The order of strings by their UTF-8 bytes, and the strictly increasing list
//! that stands for a set of strings.

use vstd::prelude::*;
use vstd::utf8::encode_utf8;

use crate::text::texts;

verus! {

/// Lexicographic order of byte sequences.
pub open spec fn bytes_below(a: Seq<u8>, b: Seq<u8>) -> bool
    decreases a.len(),
{
    if b.len() == 0 {
        false
    } else if a.len() == 0 {
        true
    } else if a[0] != b[0] {
        a[0] < b[0]
    } else {
        bytes_below(a.skip(1), b.skip(1))
    }
}

/// Order of strings: by the bytes of their UTF-8 encodings.
pub open spec fn text_below(a: Seq<char>, b: Seq<char>) -> bool {
    bytes_below(encode_utf8(a), encode_utf8(b))
}

/// Each text stands strictly below every later one.
pub open spec fn increasing(list: Seq<Seq<char>>) -> bool {
    forall|i: int, j: int|
        #![trigger list[i], list[j]]
        0 <= i < j < list.len() ==> text_below(list[i], list[j])
}

/// `list` is the set `of` written out in increasing order.
pub open spec fn lists_set(list: Seq<Seq<char>>, of: Set<Seq<char>>) -> bool {
    increasing(list) && list.to_set() == of
}

proof fn lemma_bytes_irreflexive(a: Seq<u8>)
    ensures
        !bytes_below(a, a),
    decreases a.len(),
{
    if a.len() > 0 {
        lemma_bytes_irreflexive(a.skip(1));
    }
}

proof fn lemma_bytes_transitive(a: Seq<u8>, b: Seq<u8>, c: Seq<u8>)
    requires
        bytes_below(a, b),
        bytes_below(b, c),
    ensures
        bytes_below(a, c),
    decreases a.len(),
{
    if a.len() > 0 && a[0] == b[0] && b[0] == c[0] {
        lemma_bytes_transitive(a.skip(1), b.skip(1), c.skip(1));
    }
}

proof fn lemma_bytes_total(a: Seq<u8>, b: Seq<u8>)
    requires
        a != b,
    ensures
        bytes_below(a, b) || bytes_below(b, a),
    decreases a.len(),
{
    if a.len() == 0 {
        if b.len() == 0 {
            assert(a =~= b);
        }
    } else if b.len() > 0 && a[0] == b[0] {
        if a.skip(1) == b.skip(1) {
            assert(a =~= seq![a[0]] + a.skip(1));
            assert(b =~= seq![b[0]] + b.skip(1));
        } else {
            lemma_bytes_total(a.skip(1), b.skip(1));
        }
    }
}

/// The order of texts is transitive.
pub proof fn lemma_text_transitive(a: Seq<char>, b: Seq<char>, c: Seq<char>)
    requires
        text_below(a, b),
        text_below(b, c),
    ensures
        text_below(a, c),
{
    lemma_bytes_transitive(encode_utf8(a), encode_utf8(b), encode_utf8(c));
}

/// No text stands below itself.
pub proof fn lemma_text_irreflexive(a: Seq<char>)
    ensures
        !text_below(a, a),
{
    lemma_bytes_irreflexive(encode_utf8(a));
}

/// Of two texts one stands below the other.
pub proof fn lemma_text_total(a: Seq<char>, b: Seq<char>)
    requires
        a != b,
    ensures
        text_below(a, b) || text_below(b, a),
{
    vstd::utf8::encode_utf8_decode_utf8(a);
    vstd::utf8::encode_utf8_decode_utf8(b);
    lemma_bytes_total(encode_utf8(a), encode_utf8(b));
}

/// Whether `a` stands below `b`.
fn is_below(a: &str, b: &str) -> (below: bool)
    ensures
        below == text_below(a@, b@),
{
    let left = a.as_bytes();
    let right = b.as_bytes();
    let mut i: usize = 0;
    assert(left@.skip(0) =~= left@);
    assert(right@.skip(0) =~= right@);
    while i < left.len() && i < right.len()
        invariant
            i <= left.len(),
            i <= right.len(),
            left@ == encode_utf8(a@),
            right@ == encode_utf8(b@),
            bytes_below(left@, right@) == bytes_below(left@.skip(i as int), right@.skip(i as int)),
        decreases left.len() - i,
    {
        assert(left@.skip(i as int).skip(1) =~= left@.skip(i + 1));
        assert(right@.skip(i as int).skip(1) =~= right@.skip(i + 1));
        if left[i] != right[i] {
            return left[i] < right[i];
        }
        i = i + 1;
    }
    i < right.len()
}

/// The texts of a list of borrowed strings.
spec fn borrowed_texts(list: Seq<&String>) -> Seq<Seq<char>> {
    Seq::new(list.len(), |i: int| list[i]@)
}

/// Merges two increasing lists into the increasing list of what either holds.
fn merge<'a>(a: &Vec<&'a String>, b: &Vec<&'a String>) -> (merged: Vec<&'a String>)
    requires
        increasing(borrowed_texts(a@)),
        increasing(borrowed_texts(b@)),
    ensures
        increasing(borrowed_texts(merged@)),
        borrowed_texts(merged@).to_set() == borrowed_texts(a@).to_set().union(
            borrowed_texts(b@).to_set(),
        ),
{
    let mut merged: Vec<&'a String> = Vec::new();
    let mut i: usize = 0;
    let mut j: usize = 0;
    let ghost left = borrowed_texts(a@);
    let ghost right = borrowed_texts(b@);
    while i < a.len() || j < b.len()
        invariant
            i <= a.len(),
            j <= b.len(),
            left == borrowed_texts(a@),
            right == borrowed_texts(b@),
            increasing(left),
            increasing(right),
            increasing(borrowed_texts(merged@)),
            forall|k: int, m: int|
                #![trigger merged@[k], left[m]]
                0 <= k < merged.len() && i <= m < left.len() ==> text_below(merged@[k]@, left[m]),
            forall|k: int, m: int|
                #![trigger merged@[k], right[m]]
                0 <= k < merged.len() && j <= m < right.len() ==> text_below(merged@[k]@, right[m]),
            borrowed_texts(merged@).to_set() =~= left.take(i as int).to_set().union(
                right.take(j as int).to_set(),
            ),
        decreases (a.len() - i) + (b.len() - j),
    {
        let ghost before = merged@;
        let ghost oi = i;
        let ghost oj = j;
        if j >= b.len() || (i < a.len() && is_below(a[i].as_str(), b[j].as_str())) {
            proof {
                if j < b.len() {
                    assert forall|m: int| j <= m < right.len() implies text_below(
                        left[i as int],
                        #[trigger] right[m],
                    ) by {
                        if m > j {
                            lemma_text_transitive(left[i as int], right[j as int], right[m]);
                        }
                    }
                }
            }
            merged.push(a[i]);
            i = i + 1;
        } else if i >= a.len() || is_below(b[j].as_str(), a[i].as_str()) {
            proof {
                if i < a.len() {
                    assert forall|m: int| i <= m < left.len() implies text_below(
                        right[j as int],
                        #[trigger] left[m],
                    ) by {
                        if m > i {
                            lemma_text_transitive(right[j as int], left[i as int], left[m]);
                        }
                    }
                }
            }
            merged.push(b[j]);
            j = j + 1;
        } else {
            proof {
                if left[i as int] != right[j as int] {
                    lemma_text_total(left[i as int], right[j as int]);
                }
            }
            merged.push(a[i]);
            i = i + 1;
            j = j + 1;
        }
        proof {
            let added = merged@.last()@;
            assert(borrowed_texts(merged@) =~= borrowed_texts(before).push(added));
            assert forall|k: int| 0 <= k < before.len() implies #[trigger] merged@[k]
                == before[k] by {}
            assert(increasing(borrowed_texts(merged@))) by {
                assert forall|k: int, m: int|
                    #![trigger borrowed_texts(merged@)[k], borrowed_texts(merged@)[m]]
                    0 <= k < m < merged@.len() implies text_below(
                    borrowed_texts(merged@)[k],
                    borrowed_texts(merged@)[m],
                ) by {
                    assert(merged@[k] == before[k]);
                    if m < before.len() {
                        assert(borrowed_texts(before)[k] == merged@[k]@);
                        assert(borrowed_texts(before)[m] == merged@[m]@);
                    } else if i > oi {
                        assert(text_below(before[k]@, left[oi as int]));
                    } else {
                        assert(text_below(before[k]@, right[oj as int]));
                    }
                }
            }
            assert(left.take(i as int) =~= if i > oi {
                left.take(oi as int).push(left[oi as int])
            } else {
                left.take(oi as int)
            });
            assert(right.take(j as int) =~= if j > oj {
                right.take(oj as int).push(right[oj as int])
            } else {
                right.take(oj as int)
            });
            borrowed_texts(before).lemma_push_to_set_commute(added);
            if i > oi {
                left.take(oi as int).lemma_push_to_set_commute(left[oi as int]);
            }
            if j > oj {
                right.take(oj as int).lemma_push_to_set_commute(right[oj as int]);
            }
        }
    }
    assert(left.take(i as int) =~= left);
    assert(right.take(j as int) =~= right);
    merged
}

/// The increasing list of the texts in `items`, borrowed from `items[from..to]`.
fn sorted_range<'a>(items: &'a [String], from: usize, to: usize) -> (sorted: Vec<&'a String>)
    requires
        from <= to <= items@.len(),
    ensures
        lists_set(
            borrowed_texts(sorted@),
            texts(items@.subrange(from as int, to as int)).to_set(),
        ),
    decreases to - from,
{
    if to - from == 0 {
        let sorted: Vec<&'a String> = Vec::new();
        assert(borrowed_texts(sorted@).to_set() =~= texts(
            items@.subrange(from as int, to as int),
        ).to_set());
        sorted
    } else if to - from == 1 {
        let mut sorted: Vec<&'a String> = Vec::new();
        sorted.push(&items[from]);
        assert(borrowed_texts(sorted@) =~= texts(items@.subrange(from as int, to as int)));
        sorted
    } else {
        let middle: usize = from + (to - from) / 2;
        let lower = sorted_range(items, from, middle);
        let upper = sorted_range(items, middle, to);
        let sorted = merge(&lower, &upper);
        proof {
            let all = texts(items@.subrange(from as int, to as int));
            let low = texts(items@.subrange(from as int, middle as int));
            let high = texts(items@.subrange(middle as int, to as int));
            assert(all =~= low + high);
            vstd::seq_lib::seq_to_set_distributes_over_add(low, high);
        }
        sorted
    }
}

/// The distinct texts of `items`, in increasing order.
pub fn sorted_unique(items: &[String]) -> (sorted: Vec<String>)
    ensures
        lists_set(texts(sorted@), texts(items@).to_set()),
{
    let borrowed = sorted_range(items, 0, items.len());
    assert(items@.subrange(0, items@.len() as int) =~= items@);
    let mut sorted: Vec<String> = Vec::new();
    let mut i: usize = 0;
    while i < borrowed.len()
        invariant
            i <= borrowed.len(),
            texts(sorted@) == borrowed_texts(borrowed@).take(i as int),
        decreases borrowed.len() - i,
    {
        let ghost before = sorted@;
        sorted.push(borrowed[i].clone());
        i = i + 1;
        assert(texts(sorted@) =~= texts(before).push(borrowed@[i - 1]@));
        assert(borrowed_texts(borrowed@).take(i as int) =~= borrowed_texts(borrowed@).take(
            i - 1,
        ).push(borrowed@[i - 1]@));
    }
    assert(borrowed_texts(borrowed@).take(i as int) =~= borrowed_texts(borrowed@));
    sorted
}

/// A set of texts has one increasing list.
pub proof fn lemma_lists_set_unique(a: Seq<Seq<char>>, b: Seq<Seq<char>>, of: Set<Seq<char>>)
    requires
        lists_set(a, of),
        lists_set(b, of),
    ensures
        a == b,
    decreases a.len(),
{
    if a.len() == 0 {
        if b.len() > 0 {
            assert(b.to_set().contains(b[0]));
            assert(a.contains(b[0]));
        }
        assert(a =~= b);
    } else {
        assert(a.to_set().contains(a.last()));
        assert(b.contains(a.last()));
        assert(b.to_set().contains(b.last()));
        assert(a.contains(b.last()));
        let x = a.last();
        let y = b.last();
        if x != y {
            let i = choose|i: int| 0 <= i < b.len() && b[i] == x;
            let j = choose|j: int| 0 <= j < a.len() && a[j] == y;
            assert(text_below(b[i], b[b.len() - 1]));
            assert(text_below(a[j], a[a.len() - 1]));
            lemma_text_transitive(x, y, x);
            lemma_text_irreflexive(x);
        }
        lemma_without_last(a);
        lemma_without_last(b);
        lemma_lists_set_unique(a.drop_last(), b.drop_last(), of.remove(x));
        assert(a =~= a.drop_last().push(x));
        assert(b =~= b.drop_last().push(y));
    }
}

proof fn lemma_without_last(list: Seq<Seq<char>>)
    requires
        increasing(list),
        list.len() > 0,
    ensures
        lists_set(list.drop_last(), list.to_set().remove(list.last())),
{
    let shorter = list.drop_last();
    assert forall|x: Seq<char>| shorter.contains(x) <==> list.contains(x) && x != list.last() by {
        if shorter.contains(x) {
            let k = choose|k: int| 0 <= k < shorter.len() && shorter[k] == x;
            assert(list[k] == x);
            assert(text_below(list[k], list[list.len() - 1]));
            lemma_text_irreflexive(x);
        }
        if list.contains(x) && x != list.last() {
            let k = choose|k: int| 0 <= k < list.len() && list[k] == x;
            assert(shorter[k] == x);
        }
    }
    assert(shorter.to_set() =~= list.to_set().remove(list.last()));
    assert forall|i: int, j: int|
        #![trigger shorter[i], shorter[j]]
        0 <= i < j < shorter.len() implies text_below(shorter[i], shorter[j]) by {
        assert(text_below(list[i], list[j]));
    }
}

} // verus!
