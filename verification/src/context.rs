//! The inference context: a model with its configuration and tokenizer, the
//! bookkeeping of token generation, and embedding lookup.

use std::sync::Arc;
use vstd::prelude::*;
use vstd::slice::{slice_subrange, slice_to_vec};
use vstd::string::StringExecFns;
use vstd::string::StringSliceAdditionalSpecFns;

use crate::config::ModelConfig;
use crate::gguf_types::GgufError;
use crate::model::Model;
use crate::text::append_decimal;
use crate::tokenizer::{SimpleTokenizer, decode_ids, encode_from, texts};

verus! {

/// A copy of a list of strings.
fn clone_strings(v: &Vec<String>) -> (res: Vec<String>)
    ensures
        texts(res@) == texts(v@),
{
    let mut out: Vec<String> = Vec::new();
    let mut i: usize = 0;
    while i < v.len()
        invariant
            i <= v@.len(),
            out@ == v@.subrange(0, i as int),
        decreases v@.len() - i,
    {
        let s = v[i].clone();
        out.push(s);
        i = i + 1;
        proof {
            assert(out@ =~= v@.subrange(0, i as int));
        }
    }
    proof {
        assert(out@ =~= v@);
    }
    out
}

/// The tokens a text encodes to, with the BOS token first when the tokenizer
/// adds one.
pub open spec fn spec_encode(t: SimpleTokenizer, text: Seq<u8>) -> Seq<usize> {
    (if t.adds_bos() { seq![t.bos()] } else { Seq::<usize>::empty() }) + encode_from(t.vocab(), t.unk(), text, 0)
}

/// Inference context holding state for a model.
#[derive(Debug)]
pub struct InferenceContext {
    /// The model.
    pub model: Arc<Model>,
    /// The inference settings.
    pub config: ModelConfig,
    /// The tokenizer built from the model's vocabulary.
    pub tokenizer: SimpleTokenizer,
}

impl InferenceContext {
    /// Create a new inference context, with a tokenizer made from the
    /// model's vocabulary and token settings.
    pub fn new(model: Arc<Model>, config: ModelConfig) -> (res: Self)
        ensures
            res.model == model,
            res.config == config,
            res.tokenizer.vocab() == texts(model.vocab_tokens@),
            res.tokenizer.bos() == model.bos_token_id,
            res.tokenizer.eos() == model.eos_token_id,
            res.tokenizer.unk() == model.unk_token_id,
            res.tokenizer.adds_bos() == model.add_bos_token,
    {
        let tokenizer = SimpleTokenizer::from_gguf_vocab(
            clone_strings(&model.vocab_tokens),
            model.bos_token_id,
            model.eos_token_id,
            model.unk_token_id,
            model.add_bos_token,
        );
        InferenceContext { model, config, tokenizer }
    }

    /// Encode input text to token ids using the tokenizer.
    pub fn encode(&self, text: &str) -> (res: Vec<usize>)
        ensures
            res@ == spec_encode(self.tokenizer, text.spec_bytes()),
    {
        self.tokenizer.encode(text)
    }

    /// Decode a single token id to string.
    pub fn decode_from_id(&self, id: usize) -> (res: String)
        ensures
            res@ == decode_ids(self.tokenizer.vocab(), seq![id]),
    {
        let ids: Vec<usize> = vec![id];
        proof {
            assert(ids@ =~= seq![id]);
        }
        self.tokenizer.decode(ids.as_slice())
    }

    /// Decode a slice of token ids to a string.
    pub fn decode(&self, ids: &[usize]) -> (res: String)
        ensures
            res@ == decode_ids(self.tokenizer.vocab(), ids@),
    {
        self.tokenizer.decode(ids)
    }

    /// Start generating from a prompt: its tokens, cut to the context size,
    /// with `n_predict` tokens still to predict.
    pub fn start_generation(&self, prompt: &str, n_predict: usize) -> (res: Generation)
        ensures
            res.spec_tokens() == {
                let e = spec_encode(self.tokenizer, prompt.spec_bytes());
                if e.len() > self.config.n_ctx { e.take(self.config.n_ctx as int) } else { e }
            },
            res.spec_remaining() == n_predict,
            !res.spec_stopped(),
    {
        let mut toks = self.encode(prompt);
        if toks.len() > self.config.n_ctx {
            toks.truncate(self.config.n_ctx);
        }
        Generation { tokens: toks, remaining: n_predict, stopped: false }
    }
}

/// The token id that ends a sequence, at which generation stops.
pub const EOS_TOKEN: usize = 2;

/// The bookkeeping of token generation: the tokens so far, how many more may
/// be predicted, and whether an end-of-sequence token stopped it.
///
/// Each step runs the model on `next_input` and records the token it
/// predicts, or that the step failed.
pub struct Generation {
    tokens: Vec<usize>,
    remaining: usize,
    stopped: bool,
}

impl Generation {
    /// The tokens so far.
    pub closed spec fn spec_tokens(&self) -> Seq<usize> {
        self.tokens@
    }

    /// How many more tokens may be predicted.
    pub closed spec fn spec_remaining(&self) -> usize {
        self.remaining
    }

    /// Whether an end-of-sequence token was predicted.
    pub closed spec fn spec_stopped(&self) -> bool {
        self.stopped
    }

    /// Whether generation is over: no predictions left, or stopped by an
    /// end-of-sequence token.
    pub fn is_finished(&self) -> (res: bool)
        ensures
            res == (self.spec_remaining() == 0 || self.spec_stopped()),
    {
        self.remaining == 0 || self.stopped
    }

    /// The token the next step runs the model on: the last token, or 0 when
    /// there is none.
    pub fn next_input(&self) -> (res: usize)
        ensures
            res == if self.spec_tokens().len() > 0 { self.spec_tokens().last() } else { 0 },
    {
        if self.tokens.len() > 0 {
            self.tokens[self.tokens.len() - 1]
        } else {
            0
        }
    }

    /// Record the outcome of a step of an unfinished generation: the
    /// predicted token is appended, and generation stops when it is the
    /// end-of-sequence token; a failed step appends 0.
    pub fn record(&mut self, predicted: Option<usize>)
        requires
            !(old(self).spec_remaining() == 0 || old(self).spec_stopped()),
            old(self).spec_tokens().len() < usize::MAX,
        ensures
            final(self).spec_tokens() == old(self).spec_tokens().push(
                match predicted {
                    Some(t) => t,
                    None => 0,
                },
            ),
            final(self).spec_remaining() == old(self).spec_remaining() - 1,
            final(self).spec_stopped() == (predicted == Some(EOS_TOKEN)),
    {
        match predicted {
            Some(t) => {
                self.tokens.push(t);
                self.stopped = t == EOS_TOKEN;
            },
            None => {
                self.tokens.push(0);
            },
        }
        self.remaining = self.remaining - 1;
    }

    /// The tokens so far.
    pub fn tokens(&self) -> (res: &[usize])
        ensures
            res@ == self.spec_tokens(),
    {
        self.tokens.as_slice()
    }

    /// The tokens, ending the generation.
    pub fn into_tokens(self) -> (res: Vec<usize>)
        ensures
            res@ == self.spec_tokens(),
    {
        self.tokens
    }
}

/// Look up the embedding of a single token id: row `token_id` of a row-major
/// matrix with rows of `embed_dim` entries.
///
/// Fails with a `DecodeError` when the row does not lie within the matrix.
pub fn embed_token<T: Copy>(token_id: usize, embeddings: &[T], embed_dim: usize) -> (res: Result<Vec<T>, GgufError>)
    ensures
        (token_id + 1) * embed_dim <= embeddings@.len() ==> (res matches Ok(v) && v@ == embeddings@.subrange(
            token_id * embed_dim,
            (token_id + 1) * embed_dim,
        )),
        (token_id + 1) * embed_dim > embeddings@.len() ==> res matches Err(GgufError::DecodeError(_)),
{
    let len = embeddings.len();
    let start = token_id.checked_mul(embed_dim);
    let end = match start {
        Some(s) => s.checked_add(embed_dim),
        None => None,
    };
    proof {
        assert((token_id + 1) * embed_dim == token_id * embed_dim + embed_dim) by (nonlinear_arith);
    }
    match (start, end) {
        (Some(s), Some(e)) => {
            if e > len {
                let mut msg = String::from_str("Token ID ");
                append_decimal(&mut msg, token_id as u64);
                msg.append(" out of range for embedding matrix");
                return Err(GgufError::DecodeError(msg));
            }
            Ok(slice_to_vec(slice_subrange(embeddings, s, e)))
        },
        _ => {
            proof {
                assert(token_id * embed_dim + embed_dim > usize::MAX);
            }
            let mut msg = String::from_str("Token ID ");
            append_decimal(&mut msg, token_id as u64);
            msg.append(" out of range for embedding matrix");
            Err(GgufError::DecodeError(msg))
        },
    }
}

} // verus!
