//! Sentence and token views: cheap, shareable, read-only handles over one
//! store. Callers count tokens from 0 and never see the root slot.

use crate::store::{ArcModel, DepArc, Feature, Token, TokenGraph, TokenModel};
use std::sync::Arc;
use vstd::prelude::*;
use vstd::string::StringExecFns;

verus! {

/// `Arc::clone` yields another handle to the same allocation, so the value
/// behind the new handle is the value behind the old one.
#[verifier::external_body]
fn share(graph: &Arc<TokenGraph>) -> (handle: Arc<TokenGraph>)
    ensures
        handle == graph,
{
    Arc::clone(graph)
}

/// The index was outside the sentence.
#[derive(Debug)]
pub struct IndexError {}

impl IndexError {
    /// What went wrong, for the caller to show.
    pub fn message(&self) -> (text: String)
        ensures
            text@ == "token index out of range"@,
    {
        String::from_str("token index out of range")
    }
}

/// Which token an index names in a sentence of `len` tokens: indices from 0
/// count from the front, negative ones from the end.
pub open spec fn resolve_index(idx: int, len: nat) -> Option<nat> {
    if 0 <= idx < len {
        Some(idx as nat)
    } else if -len <= idx < 0 {
        Some((len + idx) as nat)
    } else {
        None
    }
}

/// The head as callers see it: the root stays 0, a token's slot becomes its
/// index.
pub open spec fn head_of(token: TokenModel) -> Option<nat> {
    match token.arc {
        Some(a) => Some(
            if a.head == 0 {
                0nat
            } else {
                (a.head - 1) as nat
            },
        ),
        None => None,
    }
}

/// The relation as callers see it: the label of the arc, if there is one.
pub open spec fn relation_of(token: TokenModel) -> Option<Seq<char>> {
    match token.arc {
        Some(a) => Some(a.relation),
        None => None,
    }
}

/// A token has a head exactly when it has a relation.
pub proof fn head_and_relation_agree(token: TokenModel)
    ensures
        head_of(token) is Some <==> relation_of(token) is Some,
        head_of(token) is Some <==> token.arc is Some,
{
}

/// The last token is also index -1, the first is also minus the length,
/// and nothing outside `-len..len` names a token.
pub proof fn negative_indices_count_from_the_end(len: nat)
    ensures
        resolve_index(-1, len) == resolve_index(len - 1, len),
        resolve_index(-len, len) == resolve_index(0, len),
        forall|i: int|
            -len <= i < 0 ==> #[trigger] resolve_index(i, len) == resolve_index(len + i, len),
        forall|i: int| (i < -len || i >= len) <==> #[trigger] resolve_index(i, len) is None,
{
}

/// A sentence as callers see it.
pub struct PySentence {
    inner: Arc<TokenGraph>,
}

/// A cursor over the tokens of a sentence.
pub struct PySentenceIter {
    sentence: Arc<TokenGraph>,
    idx: usize,
}

/// One token of a sentence.
pub struct PyToken {
    sentence: Arc<TokenGraph>,
    idx: usize,
}

impl View for PySentence {
    type V = Seq<TokenModel>;

    /// The tokens in order, the root left out.
    closed spec fn view(&self) -> Seq<TokenModel> {
        (*self.inner)@
    }
}

impl PySentence {
    /// Wraps a store.
    pub fn from(sentence: TokenGraph) -> (view: PySentence)
        ensures
            view@ == sentence@,
    {
        PySentence { inner: Arc::new(sentence) }
    }

    /// The number of tokens. Every token of a sentence is sound in it.
    pub fn __len__(&self) -> (len: usize)
        ensures
            len == self@.len(),
            crate::store::tokens_are_sound(self@),
    {
        self.inner.len() - 1
    }

    /// The token that `idx` names.
    pub fn __getitem__(&self, idx: isize) -> (found: Result<PyToken, IndexError>)
        ensures
            match found {
                Ok(token) => resolve_index(idx as int, self@.len()) == Some(token.position())
                    && token.sentence() == self@ && token@ == self@[token.position() as int],
                Err(_) => resolve_index(idx as int, self@.len()) is None,
            },
    {
        let len: usize = self.inner.len() - 1;
        if idx >= 0 {
            let at: usize = idx as usize;
            if at < len {
                Ok(PyToken { sentence: share(&self.inner), idx: at + 1 })
            } else {
                Err(IndexError {  })
            }
        } else {
            let back: usize = (-(idx + 1)) as usize;
            if back < len {
                Ok(PyToken { sentence: share(&self.inner), idx: len - back })
            } else {
                Err(IndexError {  })
            }
        }
    }

    /// All tokens in order, as one walk of a fresh cursor yields them: one
    /// view per token, and none for the root.
    pub fn tokens(&self) -> (tokens: Vec<PyToken>)
        ensures
            tokens@.len() == self@.len(),
            forall|i: int|
                0 <= i < tokens@.len() ==> (#[trigger] tokens@[i])@ == self@[i]
                    && tokens@[i].position() == i && tokens@[i].sentence() == self@,
    {
        let len: usize = self.__len__();
        let mut iter = self.__iter__();
        let mut tokens: Vec<PyToken> = Vec::new();
        while tokens.len() < len
            invariant
                len == self@.len(),
                tokens@.len() <= len,
                iter.sentence() == self@,
                iter.rest() == self@.skip(tokens@.len() as int),
                forall|i: int|
                    0 <= i < tokens@.len() ==> (#[trigger] tokens@[i])@ == self@[i]
                        && tokens@[i].position() == i && tokens@[i].sentence() == self@,
            decreases len - tokens@.len(),
        {
            let ghost seen = tokens@.len() as int;
            match iter.__next__() {
                Some(token) => {
                    assert(self@.skip(seen)[0] == self@[seen]);
                    assert(self@.skip(seen).skip(1) =~= self@.skip(seen + 1));
                    tokens.push(token);
                },
                None => vstd::pervasive::unreached(),
            }
        }
        tokens
    }

    /// A fresh cursor at the first token.
    pub fn __iter__(&self) -> (iter: PySentenceIter)
        ensures
            iter.rest() == self@,
            iter.sentence() == self@,
    {
        let len: usize = self.inner.len();
        let iter = PySentenceIter { sentence: share(&self.inner), idx: 1 };
        assert(iter.rest() =~= self@);
        iter
    }
}

impl PySentenceIter {
    #[verifier::type_invariant]
    closed spec fn well_formed(&self) -> bool {
        1 <= self.idx <= (*self.sentence)@.len() + 1
    }

    /// The sentence that the cursor walks.
    pub closed spec fn sentence(&self) -> Seq<TokenModel> {
        (*self.sentence)@
    }

    /// The tokens still to come, in order.
    pub closed spec fn rest(&self) -> Seq<TokenModel> {
        (*self.sentence)@.skip(self.idx - 1)
    }

    /// The cursor itself.
    pub fn __iter__(self) -> (iter: PySentenceIter)
        ensures
            iter == self,
    {
        self
    }

    /// The next token, if one is left.
    pub fn __next__(&mut self) -> (next: Option<PyToken>)
        ensures
            final(self).sentence() == old(self).sentence(),
            match next {
                Some(token) => old(self).rest().len() > 0 && token@ == old(self).rest()[0]
                    && token.sentence() == old(self).sentence() && token.position() + old(
                    self,
                ).rest().len() == old(self).sentence().len() && final(self).rest() == old(
                    self,
                ).rest().skip(1),
                None => old(self).rest().len() == 0 && final(self).rest() == old(self).rest(),
            },
    {
        proof {
            use_type_invariant(&*self);
        }
        if self.idx < self.sentence.len() {
            let token = PyToken { sentence: share(&self.sentence), idx: self.idx };
            self.idx += 1;
            assert(final(self).rest() =~= old(self).rest().skip(1));
            Some(token)
        } else {
            None
        }
    }
}

impl View for PyToken {
    type V = TokenModel;

    closed spec fn view(&self) -> TokenModel {
        (*self.sentence)@[((self.idx - 1) as nat) as int]
    }
}

impl PyToken {
    #[verifier::type_invariant]
    closed spec fn well_formed(&self) -> bool {
        1 <= self.idx <= (*self.sentence)@.len()
    }

    /// The index of the token in its sentence, from 0.
    pub closed spec fn position(&self) -> nat {
        (self.idx - 1) as nat
    }

    /// The sentence that the token belongs to.
    pub closed spec fn sentence(&self) -> Seq<TokenModel> {
        (*self.sentence)@
    }

    /// A token view is the token at its position.
    pub proof fn is_at_its_position(&self)
        ensures
            self@ == self.sentence()[self.position() as int],
    {
    }

    /// The incoming arc of the token, if one is recorded.
    fn dep_triple(&self) -> (arc: Option<&DepArc>)
        ensures
            match arc {
                Some(a) => self@.arc == Some(a@) && a.head <= self.sentence().len(),
                None => self@.arc is None,
            },
    {
        proof {
            use_type_invariant(self);
        }
        self.sentence.head(self.idx)
    }

    /// The lexical part of the token.
    fn token(&self) -> (token: &Token)
        ensures
            token.lexical(None) == (TokenModel { arc: None, ..self@ }),
            crate::store::distinct_keys(self@.features),
    {
        proof {
            use_type_invariant(self);
        }
        self.sentence.token(self.idx)
    }

    /// The surface form.
    pub fn form(&self) -> (form: &str)
        ensures
            form@ == self@.form,
    {
        self.token().form.as_str()
    }

    /// A copy of the features, one pair per key.
    pub fn get_features(&self) -> (features: Vec<(String, String)>)
        ensures
            crate::store::distinct_keys(self@.features),
            features@.len() == self@.features.len(),
            forall|i: int|
                0 <= i < features@.len() ==> (#[trigger] features@[i]).0@ == self@.features[i].0
                    && features@[i].1@ == self@.features[i].1,
    {
        let token = self.token();
        let mut features: Vec<(String, String)> = Vec::new();
        let mut i: usize = 0;
        while i < token.features.len()
            invariant
                i <= token.features.len(),
                features@.len() == i,
                forall|j: int|
                    0 <= j < i ==> (#[trigger] features@[j]).0 == token.features@[j].key
                        && features@[j].1 == token.features@[j].value,
            decreases token.features.len() - i,
        {
            let f: &Feature = &token.features[i];
            features.push((f.key.clone(), f.value.clone()));
            i += 1;
        }
        features
    }

    /// The head: 0 for the root, else the head token's index; `None` where
    /// no arc is recorded.
    pub fn get_head(&self) -> (head: Option<usize>)
        ensures
            match head {
                Some(h) => head_of(self@) == Some(h as nat) && h < self.sentence().len(),
                None => head_of(self@) is None,
            },
    {
        proof {
            use_type_invariant(self);
        }
        match self.dep_triple() {
            Some(a) => Some(
                if a.head == 0 {
                    0
                } else {
                    a.head - 1
                },
            ),
            None => None,
        }
    }

    /// The relation label of the arc that `get_head` reports.
    pub fn get_relation(&self) -> (relation: Option<String>)
        ensures
            crate::store::text_of(relation) == relation_of(self@),
    {
        match self.dep_triple() {
            Some(a) => Some(a.relation.clone()),
            None => None,
        }
    }

    /// The universal part-of-speech tag.
    pub fn get_upos(&self) -> (upos: Option<&str>)
        ensures
            match upos {
                Some(s) => self@.upos == Some(s@),
                None => self@.upos is None,
            },
    {
        match &self.token().upos {
            Some(s) => Some(s.as_str()),
            None => None,
        }
    }

    /// The language-specific part-of-speech tag.
    pub fn get_xpos(&self) -> (xpos: Option<&str>)
        ensures
            match xpos {
                Some(s) => self@.xpos == Some(s@),
                None => self@.xpos is None,
            },
    {
        match &self.token().xpos {
            Some(s) => Some(s.as_str()),
            None => None,
        }
    }

    /// A short description for diagnostics, made from the form alone.
    pub fn __repr__(&self) -> (text: String)
        ensures
            text@ == "Token(form=\""@ + self@.form + "\")"@,
    {
        let mut text = String::from_str("Token(form=\"");
        text.append(self.form());
        text.append("\")");
        text
    }
}

} // verus!
