//! Corpus records, the byte-derived embedding and the terms of the similarity
//! score.
//!
//! An embedding component is a fraction with the fixed denominator 255. Only the
//! numerators are stored, one byte each, so that every quantity below is an exact
//! integer: a stored byte `b` stands for the component `b / 255`.

use vstd::prelude::*;
use vstd::string::StrSliceExecFns;

verus! {

/// Denominator shared by all embedding components.
pub const COMPONENT_SCALE: u8 = 255;

/// One corpus entry: a text and its embedding.
#[derive(Debug, PartialEq, Eq)]
pub struct Record {
    pub text: String,
    /// Numerators of the embedding components over [`COMPONENT_SCALE`].
    pub embedding: Vec<u8>,
}

/// Mathematical model of a [`Record`].
pub struct RecordModel {
    pub text: Seq<char>,
    pub embedding: Seq<u8>,
}

impl View for Record {
    type V = RecordModel;

    open spec fn view(&self) -> RecordModel {
        RecordModel { text: self.text@, embedding: self.embedding@ }
    }
}

impl DeepView for Record {
    type V = RecordModel;

    open spec fn deep_view(&self) -> RecordModel {
        self@
    }
}

impl Clone for Record {
    fn clone(&self) -> (copy: Record)
        ensures
            copy@ == self@,
    {
        Record { text: self.text.clone(), embedding: self.embedding.clone() }
    }
}

/// The embedding of a text: one component per byte of its UTF-8 encoding, the
/// byte's value being the numerator.
pub open spec fn embedding_of(text: Seq<char>) -> Seq<u8> {
    vstd::utf8::encode_utf8(text)
}

/// The record that a dataset text becomes.
pub open spec fn record_of(text: Seq<char>) -> RecordModel {
    RecordModel { text, embedding: embedding_of(text) }
}

/// Embeds a text. Deterministic, with no normalization of length: the embedding
/// is as long as the text's UTF-8 encoding.
pub fn embed(text: &str) -> (embedding: Vec<u8>)
    ensures
        embedding@ == embedding_of(text@),
{
    text.as_bytes_vec()
}

impl Record {
    /// The record of a text, with the embedding computed from it.
    pub fn from_text(text: String) -> (record: Record)
        ensures
            record@ == record_of(text@),
    {
        let embedding = embed(text.as_str());
        Record { text, embedding }
    }
}

/// Number of leading components that two embeddings have in common: the length
/// of the shorter one.
pub open spec fn overlap(a: Seq<u8>, b: Seq<u8>) -> nat {
    if a.len() <= b.len() {
        a.len()
    } else {
        b.len()
    }
}

/// Sum of the products of the first `n` pairs of numerators.
pub open spec fn dot_prefix(a: Seq<u8>, b: Seq<u8>, n: nat) -> nat
    decreases n,
{
    if n == 0 {
        0
    } else {
        dot_prefix(a, b, (n - 1) as nat) + (a[n - 1] as nat) * (b[n - 1] as nat)
    }
}

/// Sum of the squares of the first `n` numerators.
pub open spec fn norm_sq_prefix(a: Seq<u8>, n: nat) -> nat {
    dot_prefix(a, a, n)
}

/// The exact integer terms of a cosine similarity. Each is a sum of products of
/// numerators, so it stands for the value divided by the square of
/// [`COMPONENT_SCALE`].
#[derive(Debug, Clone, Copy, PartialEq, Eq, Structural)]
pub struct CosineTerms {
    /// Dot product of the two embeddings over their overlap.
    pub dot: u128,
    /// Squared magnitude of the query over the overlap.
    pub query_norm_sq: u128,
    /// Squared magnitude of the record over the overlap.
    pub record_norm_sq: u128,
}

/// Mathematical model of [`CosineTerms`].
pub struct CosineTermsModel {
    pub dot: nat,
    pub query_norm_sq: nat,
    pub record_norm_sq: nat,
}

impl View for CosineTerms {
    type V = CosineTermsModel;

    open spec fn view(&self) -> CosineTermsModel {
        CosineTermsModel {
            dot: self.dot as nat,
            query_norm_sq: self.query_norm_sq as nat,
            record_norm_sq: self.record_norm_sq as nat,
        }
    }
}

/// The terms of the similarity of a query and a record. When the lengths differ
/// both embeddings are truncated to the shorter one, for the dot product and for
/// the magnitudes alike.
pub open spec fn cosine_terms_of(query: Seq<u8>, record: Seq<u8>) -> CosineTermsModel {
    CosineTermsModel {
        dot: dot_prefix(query, record, overlap(query, record)),
        query_norm_sq: norm_sq_prefix(query, overlap(query, record)),
        record_norm_sq: norm_sq_prefix(record, overlap(query, record)),
    }
}

/// A prefix sum of `n` products of bytes is at most `n` times 255 squared.
pub proof fn lemma_dot_prefix_bound(a: Seq<u8>, b: Seq<u8>, n: nat)
    requires
        n <= a.len(),
        n <= b.len(),
    ensures
        dot_prefix(a, b, n) <= n * 65025,
    decreases n,
{
    if n > 0 {
        lemma_dot_prefix_bound(a, b, (n - 1) as nat);
        let x = a[n - 1] as nat;
        let y = b[n - 1] as nat;
        assert(x * y <= 65025) by (nonlinear_arith)
            requires
                x <= 255,
                y <= 255,
        ;
    }
}

/// Computes the terms of the similarity between a query and a record.
///
/// The score itself is the dot product divided by the product of the two
/// magnitudes plus a small epsilon; taking roots and dividing is left to the
/// caller, who gets the three sums exactly.
pub fn cosine_terms(query: &[u8], record: &[u8]) -> (terms: CosineTerms)
    ensures
        terms@ == cosine_terms_of(query@, record@),
{
    let n = if query.len() <= record.len() {
        query.len()
    } else {
        record.len()
    };
    let mut dot: u128 = 0;
    let mut query_norm_sq: u128 = 0;
    let mut record_norm_sq: u128 = 0;
    let mut i: usize = 0;
    while i < n
        invariant
            i <= n,
            n == overlap(query@, record@),
            dot == dot_prefix(query@, record@, i as nat),
            query_norm_sq == norm_sq_prefix(query@, i as nat),
            record_norm_sq == norm_sq_prefix(record@, i as nat),
        decreases n - i,
    {
        proof {
            lemma_dot_prefix_bound(query@, record@, i as nat);
            lemma_dot_prefix_bound(query@, query@, i as nat);
            lemma_dot_prefix_bound(record@, record@, i as nat);
            assert(i * 65025 <= usize::MAX * 65025) by (nonlinear_arith)
                requires
                    i <= usize::MAX,
            ;
        }
        let q: u128 = query[i] as u128;
        let r: u128 = record[i] as u128;
        assert(q * r <= 65025 && q * q <= 65025 && r * r <= 65025) by (nonlinear_arith)
            requires
                q <= 255,
                r <= 255,
        ;
        dot = dot + q * r;
        query_norm_sq = query_norm_sq + q * q;
        record_norm_sq = record_norm_sq + r * r;
        i = i + 1;
    }
    CosineTerms { dot, query_norm_sq, record_norm_sq }
}

/// An embedding compared with itself has a dot product equal to both squared
/// magnitudes, so its similarity is one up to the epsilon in the divisor.
pub proof fn lemma_self_similarity(embedding: Seq<u8>)
    ensures
        cosine_terms_of(embedding, embedding).dot == cosine_terms_of(
            embedding,
            embedding,
        ).query_norm_sq,
        cosine_terms_of(embedding, embedding).dot == cosine_terms_of(
            embedding,
            embedding,
        ).record_norm_sq,
{
}

/// The dot product does not depend on the order of its arguments.
pub proof fn lemma_dot_symmetric(a: Seq<u8>, b: Seq<u8>, n: nat)
    ensures
        dot_prefix(a, b, n) == dot_prefix(b, a, n),
    decreases n,
{
    if n > 0 {
        lemma_dot_symmetric(a, b, (n - 1) as nat);
        assert((a[n - 1] as nat) * (b[n - 1] as nat) == (b[n - 1] as nat) * (a[n - 1] as nat))
            by (nonlinear_arith);
    }
}

/// By the Cauchy-Schwarz inequality the square of the dot product never exceeds
/// the product of the squared magnitudes: the similarity is at most one.
pub proof fn lemma_cauchy_schwarz(a: Seq<u8>, b: Seq<u8>, n: nat)
    ensures
        dot_prefix(a, b, n) * dot_prefix(a, b, n) <= norm_sq_prefix(a, n) * norm_sq_prefix(b, n),
    decreases n,
{
    if n > 0 {
        let m = (n - 1) as nat;
        lemma_cauchy_schwarz(a, b, m);
        let d = dot_prefix(a, b, m) as int;
        let p = norm_sq_prefix(a, m) as int;
        let q = norm_sq_prefix(b, m) as int;
        let x = a[n - 1] as int;
        let y = b[n - 1] as int;
        // (d + xy)^2 <= (p + x^2)(q + y^2) follows from d^2 <= pq and
        // 2dxy <= p y^2 + q x^2, the latter from (d xy)^2 <= (p y^2)(q x^2).
        assert((d + x * y) * (d + x * y) <= (p + x * x) * (q + y * y)) by (nonlinear_arith)
            requires
                d * d <= p * q,
                d >= 0,
                p >= 0,
                q >= 0,
                x >= 0,
                y >= 0,
        ;
    }
}

} // verus!
