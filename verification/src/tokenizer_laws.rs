//! What the tokenizer promises of whole texts: with the basic vocabulary,
//! decoding the encoding of printable ASCII text gives the text back.

use vstd::prelude::*;
use vstd::utf8::*;

use crate::tokenizer::{
    SimpleTokenizer, basic_vocab, decode_ids, distinct_count, encode_from, is_special, last_index_of, longest_match,
    token_id,
};
use vstd::seq_lib::seq_to_set_is_finite;

verus! {

/// Whether every character of a text is printable ASCII (32..=126).
pub open spec fn printable_ascii(text: Seq<char>) -> bool {
    forall|i: int| 0 <= i < text.len() ==> 32 <= #[trigger] (text[i] as nat) <= 126
}

/// Whether `pat` occurs in `text` at position `i`.
pub open spec fn occurs_at(text: Seq<char>, pat: Seq<char>, i: int) -> bool {
    0 <= i && i + pat.len() <= text.len() && text.subrange(i, i + pat.len()) == pat
}

/// Whether a text contains none of the special token texts `<unk>`, `<s>`
/// and `</s>`.
pub open spec fn free_of_special_tokens(text: Seq<char>) -> bool {
    forall|i: int|
        !occurs_at(text, "<unk>"@, i) && !occurs_at(text, "<s>"@, i) && !occurs_at(text, "</s>"@, i)
}

/// The ids the basic vocabulary gives to the characters of a printable
/// ASCII text.
pub open spec fn basic_ids(text: Seq<char>) -> Seq<usize> {
    Seq::new(text.len(), |k: int| ((text[k] as nat) - 31) as usize)
}

/// The position `last_index_of` finds holds the text, and no later one
/// among the first `n` does; when it finds none, none of the first `n` does.
pub proof fn lemma_last_index_of(v: Seq<Seq<char>>, t: Seq<char>, n: int)
    requires
        n <= v.len(),
    ensures
        last_index_of(v, t, n) matches Some(k) ==> 0 <= k < n && v[k as int] == t
            && forall|j: int| k < j < n ==> v[j] != t,
        last_index_of(v, t, n) is None ==> forall|j: int| 0 <= j < n ==> v[j] != t,
    decreases n,
{
    if n > 0 && v[n - 1] != t {
        lemma_last_index_of(v, t, n - 1);
    }
}

/// The lengths of the special token texts.
proof fn lemma_special_lengths()
    ensures
        "<unk>"@.len() == 5,
        "<s>"@.len() == 3,
        "</s>"@.len() == 4,
{
    reveal_strlit("<unk>");
    reveal_strlit("<s>");
    reveal_strlit("</s>");
}

/// In the basic vocabulary, a printable ASCII character's text has the id
/// `code - 31`.
pub proof fn lemma_basic_token_id_char(c: char)
    requires
        32 <= (c as nat) <= 126,
    ensures
        token_id(basic_vocab(), seq![c]) == Some(((c as nat) - 31) as nat),
{
    let v = basic_vocab();
    let t = seq![c];
    let k0 = (c as nat) - 31;
    lemma_special_lengths();
    assert(v[k0 as int] =~= t);
    lemma_last_index_of(v, t, 98);
    match last_index_of(v, t, 98) {
        None => {},
        Some(k) => {
            if k != k0 {
                assert(k > k0);
                if 1 <= k <= 95 {
                    assert(v[k as int][0] == ((k + 31) as u8) as char);
                    assert(t[0] == c);
                }
            }
        },
    }
}

/// In the basic vocabulary, a text of two or more characters that is not a
/// special token is no token.
pub proof fn lemma_basic_token_id_long(t: Seq<char>)
    requires
        t.len() >= 2,
        !is_special(t),
    ensures
        token_id(basic_vocab(), t) is None,
{
    let v = basic_vocab();
    lemma_special_lengths();
    lemma_last_index_of(v, t, 98);
    if let Some(k) = last_index_of(v, t, 98) {
        assert(v[k as int] == t);
        if 1 <= k <= 95 {
            assert(v[k as int].len() == 1);
        }
    }
}

/// A character with a code of at most 126 is ASCII.
proof fn lemma_char_ascii(c: char)
    requires
        (c as nat) <= 126,
    ensures
        '\0' <= c <= '\u{7f}',
{
}

/// A character with a code below 256 is the character of its code.
proof fn lemma_char_code_roundtrip(c: char)
    requires
        (c as nat) < 256,
    ensures
        (((c as nat) as u8) as char) == c,
{
}

/// A stretch of the UTF-8 encoding of printable ASCII text is valid UTF-8
/// and decodes to the same stretch of the text.
pub proof fn lemma_ascii_piece(text: Seq<char>, i: int, l: int)
    requires
        printable_ascii(text),
        0 <= i,
        0 <= l,
        i + l <= text.len(),
    ensures
        encode_utf8(text).len() == text.len(),
        valid_utf8(encode_utf8(text).subrange(i, i + l)),
        decode_utf8(encode_utf8(text).subrange(i, i + l)) == text.subrange(i, i + l),
{
    let t = text.subrange(i, i + l);
    assert forall|j: int| 0 <= j < text.len() implies '\0' <= #[trigger] text[j] <= '\u{7f}' by {
        lemma_char_ascii(text[j]);
    }
    assert forall|j: int| 0 <= j < t.len() implies '\0' <= #[trigger] t[j] <= '\u{7f}' by {
        assert(t[j] == text[i + j]);
        lemma_char_ascii(text[i + j]);
    }
    assert(is_ascii_chars(text));
    assert(is_ascii_chars(t));
    is_ascii_chars_encode_utf8(text);
    is_ascii_chars_encode_utf8(t);
    assert(encode_utf8(text).subrange(i, i + l) =~= encode_utf8(t)) by {
        assert forall|j: int| 0 <= j < l implies #[trigger] encode_utf8(text).subrange(i, i + l)[j] == encode_utf8(t)[j] by {
            assert(t[j] == text[i + j]);
        }
    }
    encode_utf8_valid_utf8(t);
    encode_utf8_decode_utf8(t);
}

/// With the basic vocabulary, the longest match at a position of printable
/// ASCII text free of special tokens is the single character there.
pub proof fn lemma_basic_longest_match(text: Seq<char>, i: int, l: int)
    requires
        printable_ascii(text),
        free_of_special_tokens(text),
        0 <= i < text.len(),
        1 <= l <= text.len() - i,
    ensures
        longest_match(basic_vocab(), encode_utf8(text), i, l) == Some((((text[i] as nat) - 31) as nat, 1nat)),
    decreases l,
{
    let b = encode_utf8(text);
    lemma_ascii_piece(text, i, l);
    let t = text.subrange(i, i + l);
    if l == 1 {
        assert(t =~= seq![text[i]]);
        lemma_basic_token_id_char(text[i]);
    } else {
        lemma_special_lengths();
        if is_special(t) {
            assert(occurs_at(text, "<unk>"@, i) || occurs_at(text, "<s>"@, i) || occurs_at(text, "</s>"@, i));
            assert(false);
        }
        lemma_basic_token_id_long(t);
        lemma_basic_longest_match(text, i, l - 1);
    }
}

/// With the basic vocabulary, printable ASCII text free of special tokens is
/// encoded character by character.
pub proof fn lemma_basic_encode(text: Seq<char>, i: int)
    requires
        printable_ascii(text),
        free_of_special_tokens(text),
        0 <= i <= text.len(),
    ensures
        encode_from(basic_vocab(), 0, encode_utf8(text), i) == basic_ids(text).subrange(i, text.len() as int),
    decreases text.len() - i,
{
    let b = encode_utf8(text);
    lemma_ascii_piece(text, 0, 0);
    if i < text.len() {
        lemma_basic_longest_match(text, i, text.len() - i);
        lemma_basic_encode(text, i + 1);
        assert(basic_ids(text).subrange(i, text.len() as int)
            =~= seq![((text[i] as nat) - 31) as usize] + basic_ids(text).subrange(i + 1, text.len() as int));
    } else {
        assert(basic_ids(text).subrange(i, text.len() as int) =~= Seq::<usize>::empty());
    }
}

/// With the basic vocabulary, decoding the ids of the characters of a
/// printable ASCII text gives the text.
pub proof fn lemma_basic_decode(text: Seq<char>)
    requires
        printable_ascii(text),
    ensures
        decode_ids(basic_vocab(), basic_ids(text)) == text,
    decreases text.len(),
{
    if text.len() > 0 {
        let ids = basic_ids(text);
        let init = text.drop_last();
        assert(ids.drop_last() =~= basic_ids(init));
        lemma_basic_decode(init);
        let c = text.last();
        let id = ids.last();
        assert(32 <= (c as nat) <= 126);
        assert(id == ((c as nat) - 31) as usize);
        lemma_special_lengths();
        assert(basic_vocab()[id as int] == seq![((id + 31) as u8) as char]);
        assert(id + 31 == (c as nat));
        lemma_char_code_roundtrip(c);
        assert(((id + 31) as u8) as char == c);
        assert(basic_vocab()[id as int] =~= seq![c]);
        assert(init + seq![c] =~= text);
    } else {
        assert(basic_ids(text) =~= Seq::<usize>::empty());
    }
}

/// For the basic tokenizer (`SimpleTokenizer::new`), decoding the encoding
/// of a printable ASCII text that contains none of `<unk>`, `<s>` and
/// `</s>` gives back the text.
pub proof fn law_basic_roundtrip(text: Seq<char>)
    requires
        printable_ascii(text),
        free_of_special_tokens(text),
    ensures
        decode_ids(basic_vocab(), encode_from(basic_vocab(), 0, encode_utf8(text), 0)) == text,
{
    lemma_basic_encode(text, 0);
    assert(basic_ids(text).subrange(0, text.len() as int) =~= basic_ids(text));
    lemma_basic_decode(text);
}

/// The vocabulary size of a tokenizer counts each token text once: it is the
/// number of elements of the set of texts of the vocabulary.
pub proof fn law_vocab_size_counts_distinct(vocab: Seq<Seq<char>>)
    ensures
        distinct_count(vocab) == vocab.to_set().len(),
    decreases vocab.len(),
{
    broadcast use vstd::set::group_set_axioms;
    if vocab.len() == 0 {
        assert(vocab.to_set() =~= Set::<Seq<char>>::empty());
    } else {
        let init = vocab.drop_last();
        let last = vocab.last();
        law_vocab_size_counts_distinct(init);
        assert(init.push(last) =~= vocab);
        init.lemma_push_to_set_commute(last);
        seq_to_set_is_finite(init);
        if init.contains(last) {
            assert(init.to_set().contains(last));
            assert(init.to_set().insert(last) =~= init.to_set());
        } else {
            assert(!init.to_set().contains(last));
        }
    }
}

/// Encoding from position `i` emits at most one id per remaining byte.
proof fn lemma_encode_from_len(vocab: Seq<Seq<char>>, unk: usize, b: Seq<u8>, i: int)
    requires
        0 <= i <= b.len(),
    ensures
        encode_from(vocab, unk, b, i).len() <= b.len() - i,
    decreases b.len() - i,
{
    if i < b.len() {
        match longest_match(vocab, b, i, b.len() - i) {
            Some((id, l)) => {
                if l >= 1 && i + l <= b.len() {
                    lemma_encode_from_len(vocab, unk, b, i + l);
                }
            },
            None => {
                lemma_encode_from_len(vocab, unk, b, i + 1);
            },
        }
    }
}

/// An encoding has at most one id per byte of the text, plus the BOS token
/// when the tokenizer adds one.
pub proof fn law_encode_length_bound(t: SimpleTokenizer, text: Seq<u8>)
    ensures
        ((if t.adds_bos() { seq![t.bos()] } else { Seq::<usize>::empty() }) + encode_from(t.vocab(), t.unk(), text, 0)).len()
            <= (if t.adds_bos() { 1int } else { 0int }) + text.len(),
{
    lemma_encode_from_len(t.vocab(), t.unk(), text, 0);
}

/// Whether the `l` bytes of `b` at `i` are valid UTF-8 whose text is a token
/// of the vocabulary.
pub open spec fn token_piece(vocab: Seq<Seq<char>>, b: Seq<u8>, i: int, l: int) -> bool {
    valid_utf8(b.subrange(i, i + l)) && token_id(vocab, decode_utf8(b.subrange(i, i + l))) is Some
}

/// The id of the token the `l` bytes of `b` at `i` spell.
pub open spec fn piece_id(vocab: Seq<Seq<char>>, b: Seq<u8>, i: int, l: int) -> nat {
    token_id(vocab, decode_utf8(b.subrange(i, i + l))).unwrap()
}

/// Among the pieces of at most `len` bytes at `i`, the match is the longest
/// piece that is a token, or none when no piece is.
proof fn lemma_longest_match_search(vocab: Seq<Seq<char>>, b: Seq<u8>, i: int, len: int, l: int)
    requires
        0 <= i,
        i + len <= b.len(),
        1 <= l <= len,
        token_piece(vocab, b, i, l),
        forall|l2: int| l < l2 <= len ==> !#[trigger] token_piece(vocab, b, i, l2),
    ensures
        longest_match(vocab, b, i, len) == Some((piece_id(vocab, b, i, l), l as nat)),
    decreases len,
{
    if len > l {
        assert(!token_piece(vocab, b, i, len));
        lemma_longest_match_search(vocab, b, i, len - 1, l);
    }
}

/// With no piece of at most `len` bytes at `i` being a token, there is no
/// match.
proof fn lemma_longest_match_none(vocab: Seq<Seq<char>>, b: Seq<u8>, i: int, len: int)
    requires
        forall|l2: int| 1 <= l2 <= len ==> !#[trigger] token_piece(vocab, b, i, l2),
    ensures
        longest_match(vocab, b, i, len) is None,
    decreases len,
{
    if len > 0 {
        assert(!token_piece(vocab, b, i, len));
        lemma_longest_match_none(vocab, b, i, len - 1);
    }
}

/// Encoding is greedy over every length: at each position it emits the id
/// of the longest piece of the rest of the text, of any length up to the
/// whole rest, that is valid UTF-8 and a token, and goes on after that piece;
/// when no piece is a token it emits the unknown id and goes on after one
/// byte.
pub proof fn law_greedy_longest_match(vocab: Seq<Seq<char>>, unk: usize, b: Seq<u8>, i: int, l: int)
    requires
        0 <= i < b.len(),
    ensures
        1 <= l <= b.len() - i && token_piece(vocab, b, i, l)
            && (forall|l2: int| l < l2 <= b.len() - i ==> !#[trigger] token_piece(vocab, b, i, l2))
            ==> encode_from(vocab, unk, b, i) == seq![piece_id(vocab, b, i, l) as usize] + encode_from(vocab, unk, b, i + l),
        (forall|l2: int| 1 <= l2 <= b.len() - i ==> !#[trigger] token_piece(vocab, b, i, l2))
            ==> encode_from(vocab, unk, b, i) == seq![unk] + encode_from(vocab, unk, b, i + 1),
{
    if 1 <= l <= b.len() - i && token_piece(vocab, b, i, l)
        && (forall|l2: int| l < l2 <= b.len() - i ==> !#[trigger] token_piece(vocab, b, i, l2)) {
        lemma_longest_match_search(vocab, b, i, b.len() - i, l);
    }
    if forall|l2: int| 1 <= l2 <= b.len() - i ==> !#[trigger] token_piece(vocab, b, i, l2) {
        lemma_longest_match_none(vocab, b, i, b.len() - i);
    }
}

/// A text whose UTF-8 bytes spell a single token of the vocabulary, however
/// long, encodes to that token's id alone (after BOS, when it is added).
pub proof fn law_single_token_text(vocab: Seq<Seq<char>>, unk: usize, b: Seq<u8>)
    requires
        b.len() > 0,
        valid_utf8(b),
        token_id(vocab, decode_utf8(b)) is Some,
    ensures
        encode_from(vocab, unk, b, 0) == seq![token_id(vocab, decode_utf8(b)).unwrap() as usize],
{
    assert(b.subrange(0, b.len() as int) =~= b);
    assert(token_piece(vocab, b, 0, b.len() as int));
    law_greedy_longest_match(vocab, unk, b, 0, b.len() as int);
    assert(encode_from(vocab, unk, b, b.len() as int) =~= Seq::<usize>::empty());
    assert(seq![token_id(vocab, decode_utf8(b)).unwrap() as usize] + Seq::<usize>::empty()
        =~= seq![token_id(vocab, decode_utf8(b)).unwrap() as usize]);
}

/// Decoding works id by id: decoding two runs of ids one after the other
/// gives the two texts one after the other, and a single id gives its token
/// text unless it is special or names no token.
pub proof fn law_decode_concatenates(vocab: Seq<Seq<char>>, a: Seq<usize>, b: Seq<usize>)
    ensures
        decode_ids(vocab, a + b) == decode_ids(vocab, a) + decode_ids(vocab, b),
        b.len() == 1 ==> decode_ids(vocab, b) == if b[0] < vocab.len() && !is_special(vocab[b[0] as int]) {
            vocab[b[0] as int]
        } else {
            Seq::<char>::empty()
        },
    decreases b.len(),
{
    if b.len() == 0 {
        assert(a + b =~= a);
        assert(decode_ids(vocab, a) + Seq::<char>::empty() =~= decode_ids(vocab, a));
    } else {
        law_decode_concatenates(vocab, a, b.drop_last());
        assert((a + b).drop_last() =~= a + b.drop_last());
        assert((a + b).last() == b.last());
        let c = decode_ids(vocab, a);
        let d = decode_ids(vocab, b.drop_last());
        if b.last() < vocab.len() && !is_special(vocab[b.last() as int]) {
            assert(c + d + vocab[b.last() as int] =~= c + (d + vocab[b.last() as int]));
        }
        if b.len() == 1 {
            assert(b.drop_last() =~= Seq::<usize>::empty());
            assert(Seq::<char>::empty() + vocab[b[0] as int] =~= vocab[b[0] as int]);
        }
    }
}

} // verus!
