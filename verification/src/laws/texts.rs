//! What is said of texts, and what numbers and lists are written as.

use vstd::prelude::*;

use crate::artifact::{hex, hex_digit, hex_text};
use crate::laws::terms::{
    lemma_listed, lemma_precedes, lemma_writes, listed, precedes, writes, written,
};
use crate::order::sorted_unique;
use crate::text::{decimal_text, is_blank, texts, white_space};

verus! {

/// White space is what Unicode says it is, code point by code point.
pub proof fn law_white_space_is_that_of_unicode(c: char)
    ensures
        white_space(c) <==> ({
            let code = c as int;
            ||| 9 <= code <= 13
            ||| code == 32
            ||| code == 133
            ||| code == 160
            ||| code == 5760
            ||| 8192 <= code <= 8202
            ||| code == 8232
            ||| code == 8233
            ||| code == 8239
            ||| code == 8287
            ||| code == 12288
        }),
{
}

/// A text is blank exactly where no character of it is other than white space.
pub proof fn law_blank_texts_hold_white_space_only(text: &str, is: bool)
    requires
        call_ensures(is_blank, (text,), is),
    ensures
        is == !written(text@),
        is <==> forall|i: int| 0 <= i < text@.len() ==> white_space(#[trigger] text@[i]),
{
}

/// A number is written with digits only, without a leading zero, and can be read back.
pub proof fn law_numbers_can_be_read_back(n: u64, text: String)
    requires
        call_ensures(decimal_text, (n,), text),
    ensures
        writes(text@, n as nat),
{
    lemma_writes(n as nat);
}

/// The number that a hexadecimal digit stands for.
pub open spec fn nibble(c: char) -> int {
    if '0' <= c <= '9' {
        c as int - '0' as int
    } else if 'a' <= c <= 'f' {
        c as int - 'a' as int + 10
    } else {
        -1
    }
}

/// `text` is `bytes` in lower-case hexadecimal: two digits for each byte, the higher
/// one first.
pub open spec fn spells(text: Seq<char>, bytes: Seq<u8>) -> bool {
    &&& text.len() == 2 * bytes.len()
    &&& forall|i: int|
        #![trigger bytes[i]]
        0 <= i < bytes.len() ==> 0 <= nibble(text[2 * i]) < 16 && 0 <= nibble(text[2 * i + 1]) < 16
            && 16 * nibble(text[2 * i]) + nibble(text[2 * i + 1]) == bytes[i]
}

proof fn lemma_nibble(n: u8)
    requires
        n < 16,
    ensures
        nibble(hex_digit(n)) == n,
{
}

/// Text that spells bytes is the one hexadecimal text of them.
pub proof fn lemma_spells(text: Seq<char>, bytes: Seq<u8>)
    ensures
        spells(text, bytes) <==> text == hex(bytes),
{
    let right = hex(bytes);
    assert forall|i: int| #![trigger bytes[i]] 0 <= i < bytes.len() implies nibble(right[2 * i])
        == bytes[i] / 16 && nibble(right[2 * i + 1]) == bytes[i] % 16 by {
        lemma_nibble(bytes[i] / 16);
        lemma_nibble(bytes[i] % 16);
        assert((2 * i) / 2 == i && (2 * i) % 2 == 0);
        assert((2 * i + 1) / 2 == i && (2 * i + 1) % 2 == 1);
    }
    if spells(text, bytes) {
        assert forall|j: int| 0 <= j < text.len() implies text[j] == right[j] by {
            let i = j / 2;
            assert(nibble(right[2 * i]) == bytes[i] / 16);
            assert(j == 2 * i || j == 2 * i + 1);
            let (high, low) = (nibble(text[2 * i]), nibble(text[2 * i + 1]));
            assert(high == bytes[i] / 16 && low == bytes[i] % 16);
            lemma_one_digit(text[j], right[j]);
        }
        assert(text =~= right);
    }
}

proof fn lemma_one_digit(a: char, b: char)
    requires
        nibble(a) == nibble(b),
        nibble(a) >= 0,
    ensures
        a == b,
{
}

/// Bytes are written in lower-case hexadecimal, two digits each.
pub proof fn law_hexadecimal_can_be_read_back(bytes: &[u8], text: String)
    requires
        call_ensures(hex_text, (bytes,), text),
    ensures
        spells(text@, bytes@),
{
    lemma_spells(text@, bytes@);
}

/// Sorting keeps what a list holds, holds nothing twice, and puts it in byte order.
pub proof fn law_sorting_keeps_what_a_list_holds(items: &[String], sorted: Vec<String>)
    requires
        call_ensures(sorted_unique, (items,), sorted),
    ensures
        forall|text: Seq<char>| #[trigger] listed(sorted@, text) == listed(items@, text),
        forall|i: int, j: int|
            #![trigger sorted@[i], sorted@[j]]
            0 <= i < j < sorted@.len() ==> precedes(sorted@[i]@, sorted@[j]@),
{
    assert forall|text: Seq<char>| #[trigger] listed(sorted@, text) == listed(items@, text) by {
        lemma_listed(sorted@, text);
        lemma_listed(items@, text);
        assert(texts(sorted@).to_set().contains(text) == texts(sorted@).contains(text));
        assert(texts(items@).to_set().contains(text) == texts(items@).contains(text));
    }
    assert forall|i: int, j: int|
        #![trigger sorted@[i], sorted@[j]]
        0 <= i < j < sorted@.len() implies precedes(sorted@[i]@, sorted@[j]@) by {
        assert(texts(sorted@)[i] == sorted@[i]@ && texts(sorted@)[j] == sorted@[j]@);
        lemma_precedes(sorted@[i]@, sorted@[j]@);
    }
}

} // verus!
