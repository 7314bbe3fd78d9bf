//! Tokenizer: a vocabulary of token strings indexed by token id, greedy
//! longest-match encoding over the UTF-8 bytes of a text, and decoding.

use vstd::prelude::*;
use vstd::slice::slice_subrange;
use vstd::string::StringExecFns;
use vstd::string::StringSliceAdditionalSpecFns;
use vstd::utf8::*;

use crate::text::{owned, str_eq, utf8_to_str};

verus! {

broadcast use vstd::string::group_string_axioms;

/// Tokenizer with a vocabulary whose token ids are the positions of the
/// token strings.
#[derive(Debug, Clone)]
pub struct SimpleTokenizer {
    /// Token strings; the id of a token is its position.
    tokens: Vec<String>,
    /// BOS token ID.
    pub bos_token_id: usize,
    /// EOS token ID.
    pub eos_token_id: usize,
    /// Unknown token ID.
    pub unk_token_id: usize,
    /// Whether to add BOS token automatically.
    pub add_bos_token: bool,
}

/// The texts of a sequence of strings.
pub open spec fn texts(v: Seq<String>) -> Seq<Seq<char>> {
    v.map_values(|s: String| s@)
}

/// The id of a token text: the last position among the first `n` entries of
/// the vocabulary that holds it (a later entry of the same text overrides an
/// earlier one).
pub open spec fn last_index_of(vocab: Seq<Seq<char>>, t: Seq<char>, n: int) -> Option<nat>
    decreases n,
{
    if n <= 0 {
        None
    } else if vocab[n - 1] == t {
        Some((n - 1) as nat)
    } else {
        last_index_of(vocab, t, n - 1)
    }
}

/// The id of a token text in a vocabulary.
pub open spec fn token_id(vocab: Seq<Seq<char>>, t: Seq<char>) -> Option<nat> {
    last_index_of(vocab, t, vocab.len() as int)
}

/// The longest piece of the bytes at `i`, of at most `l` bytes, that is
/// valid UTF-8 and whose text is a token: its id and its length.
pub open spec fn longest_match(vocab: Seq<Seq<char>>, b: Seq<u8>, i: int, l: int) -> Option<(nat, nat)>
    decreases l,
{
    if l <= 0 {
        None
    } else {
        let piece = b.subrange(i, i + l);
        if valid_utf8(piece) && token_id(vocab, decode_utf8(piece)) is Some {
            Some((token_id(vocab, decode_utf8(piece)).unwrap(), l as nat))
        } else {
            longest_match(vocab, b, i, l - 1)
        }
    }
}

/// Greedy encoding of the bytes from position `i`: the longest matching
/// token at each position, or the unknown token for one byte when no piece
/// matches.
pub open spec fn encode_from(vocab: Seq<Seq<char>>, unk: usize, b: Seq<u8>, i: int) -> Seq<usize>
    decreases b.len() - i,
{
    if i < 0 || i >= b.len() {
        Seq::empty()
    } else {
        match longest_match(vocab, b, i, b.len() - i) {
            Some((id, l)) => if l >= 1 && i + l <= b.len() {
                seq![id as usize] + encode_from(vocab, unk, b, i + l)
            } else {
                Seq::empty()
            },
            None => seq![unk] + encode_from(vocab, unk, b, i + 1),
        }
    }
}

/// Whether a token text is one of the special tokens skipped by decoding.
pub open spec fn is_special(t: Seq<char>) -> bool {
    t == "<unk>"@ || t == "<s>"@ || t == "</s>"@
}

/// Decoding ids: the texts of the ids that name a non-special token, in
/// order; other ids contribute nothing.
pub open spec fn decode_ids(vocab: Seq<Seq<char>>, ids: Seq<usize>) -> Seq<char>
    decreases ids.len(),
{
    if ids.len() == 0 {
        Seq::empty()
    } else {
        let rest = decode_ids(vocab, ids.drop_last());
        let id = ids.last();
        if id < vocab.len() && !is_special(vocab[id as int]) {
            rest + vocab[id as int]
        } else {
            rest
        }
    }
}

/// The number of distinct texts in a sequence.
pub open spec fn distinct_count(s: Seq<Seq<char>>) -> nat
    decreases s.len(),
{
    if s.len() == 0 {
        0
    } else if s.drop_last().contains(s.last()) {
        distinct_count(s.drop_last())
    } else {
        distinct_count(s.drop_last()) + 1
    }
}

/// The vocabulary of the basic tokenizer: `<unk>` at 0, the printable ASCII
/// characters 32..=126 at 1..=95, then `<s>` at 96 and `</s>` at 97.
pub open spec fn basic_vocab() -> Seq<Seq<char>> {
    Seq::new(98, |i: int|
        if i == 0 {
            "<unk>"@
        } else if i <= 95 {
            seq![((i + 31) as u8) as char]
        } else if i == 96 {
            "<s>"@
        } else {
            "</s>"@
        })
}

/// A single ASCII byte is valid UTF-8 and decodes to the character with its
/// code.
pub proof fn lemma_ascii_byte_utf8(c: u8)
    requires
        c < 0x80,
    ensures
        valid_utf8(seq![c]),
        decode_utf8(seq![c]) == seq![c as char],
{
    let s = seq![c];
    assert((c & 0x7f) == c) by (bit_vector)
        requires
            c < 0x80;
    assert(pop_first_scalar(s) =~= Seq::<u8>::empty());
    reveal_with_fuel(valid_utf8, 2);
    reveal_with_fuel(decode_utf8, 2);
    assert(decode_utf8(s) =~= seq![c as char]);
}

impl SimpleTokenizer {
    /// The vocabulary texts, indexed by token id.
    pub closed spec fn vocab(&self) -> Seq<Seq<char>> {
        texts(self.tokens@)
    }

    /// The BOS token id.
    pub closed spec fn bos(&self) -> usize {
        self.bos_token_id
    }

    /// The EOS token id.
    pub closed spec fn eos(&self) -> usize {
        self.eos_token_id
    }

    /// The unknown token id.
    pub closed spec fn unk(&self) -> usize {
        self.unk_token_id
    }

    /// Whether a BOS token starts every encoding.
    pub closed spec fn adds_bos(&self) -> bool {
        self.add_bos_token
    }

    /// Create a new tokenizer with a basic ASCII vocabulary: `<unk>` (id 0),
    /// the printable ASCII characters (ids 1 to 95), `<s>` (96, BOS) and
    /// `</s>` (97, EOS), without automatic BOS.
    pub fn new() -> (res: Self)
        ensures
            res.vocab() == basic_vocab(),
            res.bos() == 96,
            res.eos() == 97,
            res.unk() == 0,
            !res.adds_bos(),
    {
        let mut tokens: Vec<String> = Vec::new();
        tokens.push(owned("<unk>"));
        let mut code: u8 = 32;
        while code <= 126
            invariant
                32 <= code <= 127,
                tokens@.len() == code - 31,
                forall|i: int| 0 <= i < tokens@.len() ==> #[trigger] texts(tokens@)[i] == basic_vocab()[i],
            decreases 127 - code,
        {
            let bytes: [u8; 1] = [code];
            proof {
                lemma_ascii_byte_utf8(code);
                assert(bytes@ =~= seq![code]);
            }
            let piece = match utf8_to_str(bytes.as_slice()) {
                Ok(s) => s.to_owned(),
                Err(_) => owned(""),
            };
            let ghost old_tokens = tokens@;
            tokens.push(piece);
            proof {
                assert forall|i: int| 0 <= i < tokens@.len() implies #[trigger] texts(tokens@)[i] == basic_vocab()[i] by {
                    if i < old_tokens.len() {
                        assert(texts(old_tokens)[i] == basic_vocab()[i]);
                        assert(tokens@[i] == old_tokens[i]);
                    } else {
                        assert(i == code - 31);
                        assert(((i + 31) as u8) == code);
                    }
                }
            }
            code = code + 1;
        }
        let ghost old_tokens = tokens@;
        proof {
            assert(forall|i: int| 0 <= i < 96 ==> #[trigger] texts(old_tokens)[i] == basic_vocab()[i]);
        }
        tokens.push(owned("<s>"));
        tokens.push(owned("</s>"));
        proof {
            assert forall|i: int| 0 <= i < 98 implies #[trigger] texts(tokens@)[i] == basic_vocab()[i] by {
                if i < 96 {
                    assert(tokens@[i] == old_tokens[i]);
                    assert(texts(old_tokens)[i] == basic_vocab()[i]);
                } else if i == 96 {
                    assert(texts(tokens@)[i] == tokens@[i]@);
                    assert(basic_vocab()[i] == "<s>"@);
                } else {
                    assert(texts(tokens@)[i] == tokens@[i]@);
                    assert(basic_vocab()[i] == "</s>"@);
                }
            }
            assert(texts(tokens@) =~= basic_vocab());
        }
        SimpleTokenizer {
            tokens,
            bos_token_id: 96,
            eos_token_id: 97,
            unk_token_id: 0,
            add_bos_token: false,
        }
    }

    /// Create a tokenizer from GGUF vocabulary: token `i` of `tokens` gets
    /// id `i`.
    pub fn from_gguf_vocab(
        tokens: Vec<String>,
        bos_token_id: usize,
        eos_token_id: usize,
        unk_token_id: usize,
        add_bos_token: bool,
    ) -> (res: Self)
        ensures
            res.vocab() == texts(tokens@),
            res.bos() == bos_token_id,
            res.eos() == eos_token_id,
            res.unk() == unk_token_id,
            res.adds_bos() == add_bos_token,
    {
        SimpleTokenizer { tokens, bos_token_id, eos_token_id, unk_token_id, add_bos_token }
    }

    /// The id of a token text, if it is in the vocabulary.
    fn lookup(&self, t: &str) -> (res: Option<usize>)
        ensures
            res matches Some(id) ==> token_id(self.vocab(), t@) == Some(id as nat),
            res is None ==> token_id(self.vocab(), t@) is None,
    {
        let mut n: usize = self.tokens.len();
        while n > 0
            invariant
                n <= self.tokens@.len(),
                last_index_of(self.vocab(), t@, n as int) == token_id(self.vocab(), t@),
            decreases n,
        {
            if str_eq(self.tokens[n - 1].as_str(), t) {
                return Some(n - 1);
            }
            n = n - 1;
        }
        None
    }

    /// Get vocabulary size: the number of distinct token texts.
    pub fn vocab_size(&self) -> (res: usize)
        ensures
            res == distinct_count(self.vocab()),
    {
        let ghost v = self.vocab();
        let mut count: usize = 0;
        let mut i: usize = 0;
        while i < self.tokens.len()
            invariant
                v == self.vocab(),
                v.len() == self.tokens@.len(),
                i <= v.len(),
                count == distinct_count(v.subrange(0, i as int)),
                count <= i,
            decreases v.len() - i,
        {
            let mut j: usize = 0;
            let mut seen = false;
            while j < i
                invariant
                    v == self.vocab(),
                    v.len() == self.tokens@.len(),
                    i < v.len(),
                    j <= i,
                    seen == exists|k: int| 0 <= k < j && v[k] == v[i as int],
                decreases i - j,
            {
                proof {
                    assert(v[j as int] == self.tokens@[j as int]@);
                    assert(v[i as int] == self.tokens@[i as int]@);
                }
                if str_eq(self.tokens[j].as_str(), self.tokens[i].as_str()) {
                    seen = true;
                }
                j = j + 1;
            }
            proof {
                let pre = v.subrange(0, i as int);
                let cur = v.subrange(0, i + 1);
                assert(cur.drop_last() =~= pre);
                assert(cur.last() == v[i as int]);
                if seen {
                    let k = choose|k: int| 0 <= k < i && v[k] == v[i as int];
                    assert(pre[k] == v[i as int]);
                } else {
                    assert forall|k: int| 0 <= k < pre.len() implies pre[k] != v[i as int] by {
                        assert(pre[k] == v[k]);
                    }
                }
            }
            if !seen {
                count = count + 1;
            }
            i = i + 1;
        }
        proof {
            assert(v.subrange(0, v.len() as int) =~= v);
        }
        count
    }
}

impl SimpleTokenizer {
    /// Encode text to token IDs by greedy longest match over its UTF-8
    /// bytes: at each position the longest piece that is valid UTF-8 and a
    /// token of the vocabulary, or the unknown token for a single byte when
    /// no piece matches; preceded by the BOS token when configured.
    pub fn encode(&self, text: &str) -> (res: Vec<usize>)
        ensures
            res@ == (if self.adds_bos() { seq![self.bos()] } else { Seq::<usize>::empty() })
                + encode_from(self.vocab(), self.unk(), text.spec_bytes(), 0),
    {
        let mut tokens: Vec<usize> = Vec::new();
        if self.add_bos_token {
            tokens.push(self.bos_token_id);
        }
        let ghost head = tokens@;
        let ghost vocab = self.vocab();
        let ghost unk = self.unk_token_id;
        let bytes = text.as_bytes();
        let n = bytes.len();
        let ghost b = bytes@;
        let mut i: usize = 0;
        proof {
            assert(tokens@ + encode_from(vocab, unk, b, 0) == head + encode_from(vocab, unk, b, 0));
        }
        while i < bytes.len()
            invariant
                vocab == self.vocab(),
                unk == self.unk_token_id,
                b == bytes@,
                b.len() == n,
                i <= b.len(),
                tokens@ + encode_from(vocab, unk, b, i as int) == head + encode_from(vocab, unk, b, 0),
            decreases b.len() - i,
        {
            let rem = bytes.len() - i;
            let mut len = rem;
            let mut found: Option<(usize, usize)> = None;
            while len > 0
                invariant
                    vocab == self.vocab(),
                    b == bytes@,
                    b.len() == n,
                    i < b.len(),
                    rem == b.len() - i,
                    len <= rem,
                    found is None ==> longest_match(vocab, b, i as int, rem as int) == longest_match(vocab, b, i as int, len as int),
                    found is Some ==> len == 0,
                    found matches Some((id, l)) ==> 1 <= l <= rem
                        && longest_match(vocab, b, i as int, rem as int) == Some((id as nat, l as nat)),
                decreases len,
            {
                let piece = slice_subrange(bytes, i, i + len);
                let hit = match utf8_to_str(piece) {
                    Ok(s) => self.lookup(s),
                    Err(_) => None,
                };
                proof {
                    assert(piece@ == b.subrange(i as int, i + len));
                }
                match hit {
                    Some(id) => {
                        proof {
                            assert(longest_match(vocab, b, i as int, len as int) == Some((id as nat, len as nat)));
                        }
                        found = Some((id, len));
                        len = 0;
                    },
                    None => {
                        len = len - 1;
                    },
                }
            }
            let ghost old_tokens = tokens@;
            match found {
                Some((id, l)) => {
                    tokens.push(id);
                    proof {
                        assert(old_tokens.push(id) + encode_from(vocab, unk, b, i + l)
                            =~= old_tokens + (seq![id] + encode_from(vocab, unk, b, i + l)));
                    }
                    i = i + l;
                },
                None => {
                    tokens.push(self.unk_token_id);
                    proof {
                        assert(old_tokens.push(unk) + encode_from(vocab, unk, b, i + 1)
                            =~= old_tokens + (seq![unk] + encode_from(vocab, unk, b, i + 1)));
                    }
                    i = i + 1;
                },
            }
        }
        proof {
            assert(tokens@ + Seq::<usize>::empty() =~= tokens@);
        }
        tokens
    }

    /// Decode token IDs to text: the texts of the ids that name a token other
    /// than `<unk>`, `<s>` and `</s>`, in order.
    pub fn decode(&self, tokens: &[usize]) -> (res: String)
        ensures
            res@ == decode_ids(self.vocab(), tokens@),
    {
        let ghost vocab = self.vocab();
        let mut result = String::new();
        let mut k: usize = 0;
        proof {
            assert(tokens@.subrange(0, 0) =~= Seq::<usize>::empty());
        }
        while k < tokens.len()
            invariant
                vocab == self.vocab(),
                vocab.len() == self.tokens@.len(),
                k <= tokens@.len(),
                result@ == decode_ids(vocab, tokens@.subrange(0, k as int)),
            decreases tokens@.len() - k,
        {
            proof {
                let cur = tokens@.subrange(0, k + 1);
                assert(cur.drop_last() =~= tokens@.subrange(0, k as int));
                assert(cur.last() == tokens@[k as int]);
            }
            let id = tokens[k];
            if id < self.tokens.len() {
                let token = self.tokens[id].as_str();
                proof {
                    assert(vocab[id as int] == token@);
                }
                if !(str_eq(token, "<unk>") || str_eq(token, "<s>") || str_eq(token, "</s>")) {
                    result.append(token);
                }
            }
            k = k + 1;
        }
        proof {
            assert(tokens@.subrange(0, k as int) =~= tokens@);
        }
        result
    }
}

impl Default for SimpleTokenizer {
    fn default() -> (res: Self)
        ensures
            res.vocab() == basic_vocab(),
            res.bos() == 96,
            res.eos() == 97,
            res.unk() == 0,
            !res.adds_bos(),
    {
        Self::new()
    }
}

} // verus!
