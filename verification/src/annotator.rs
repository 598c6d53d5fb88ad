//! The annotation run: sentences are tagged batch by batch in order of
//! length, and come back in the order in which they were given.

use crate::batching::{batches_hold_each_sentence_once, chunks, is_chunking, is_length_order, length_order};
use crate::sentence::PySentence;
use crate::store::{annotated_tokens, blanks, notes_fit, TokenAnnotation, TokenGraph, TokenModel};
use vstd::prelude::*;
use vstd::string::StringExecFns;

verus! {

/// Why a pipeline could not be built or a run could not be completed.
#[derive(Debug)]
pub enum AnnotatorError {
    /// The configuration could not be read, parsed or relativized.
    Config { path: String, cause: String },
    /// A label file could not be read.
    LabelLoad { path: String, cause: String },
    /// The tokenizer could not be built.
    TokenizerLoad { cause: String },
    /// The model could not be built.
    ModelBuild { cause: String },
    /// The trained parameters could not be loaded.
    ParameterLoad { path: String, cause: String },
    /// Tagging a batch failed.
    Tagging { cause: String },
}

impl AnnotatorError {
    /// The message as a reader sees it.
    pub open spec fn text(&self) -> Seq<char> {
        match self {
            AnnotatorError::Config { path, cause } => "Cannot read configuration from "@ + path@
                + ": "@ + cause@,
            AnnotatorError::LabelLoad { path, cause } => "Cannot load labels from "@ + path@
                + ": "@ + cause@,
            AnnotatorError::TokenizerLoad { cause } => "Cannot load tokenizer: "@ + cause@,
            AnnotatorError::ModelBuild { cause } => "Cannot construct model: "@ + cause@,
            AnnotatorError::ParameterLoad { path, cause } => "Cannot load model parameters from "@
                + path@ + ": "@ + cause@,
            AnnotatorError::Tagging { cause } => "Cannot annotate sentences: "@ + cause@,
        }
    }

    /// A message that names the resource and the cause.
    pub fn message(&self) -> (text: String)
        ensures
            text@ == self.text(),
    {
        match self {
            AnnotatorError::Config { path, cause } => located(
                "Cannot read configuration from ",
                path,
                cause,
            ),
            AnnotatorError::LabelLoad { path, cause } => located(
                "Cannot load labels from ",
                path,
                cause,
            ),
            AnnotatorError::TokenizerLoad { cause } => {
                let mut text = String::from_str("Cannot load tokenizer: ");
                text.append(cause.as_str());
                text
            },
            AnnotatorError::ModelBuild { cause } => {
                let mut text = String::from_str("Cannot construct model: ");
                text.append(cause.as_str());
                text
            },
            AnnotatorError::ParameterLoad { path, cause } => located(
                "Cannot load model parameters from ",
                path,
                cause,
            ),
            AnnotatorError::Tagging { cause } => {
                let mut text = String::from_str("Cannot annotate sentences: ");
                text.append(cause.as_str());
                text
            },
        }
    }
}

/// A message of the form `what`, the path, a colon and the cause.
fn located(what: &str, path: &String, cause: &String) -> (text: String)
    ensures
        text@ == what@ + path@ + ": "@ + cause@,
{
    let mut text = String::from_str(what);
    text.append(path.as_str());
    text.append(": ");
    text.append(cause.as_str());
    text
}

/// The tokens of each sentence.
pub open spec fn views(sentences: Seq<TokenGraph>) -> Seq<Seq<TokenModel>> {
    Seq::new(sentences.len(), |i: int| sentences[i]@)
}

/// The number of pieces of each sentence.
pub open spec fn piece_counts(sentences: Seq<TokenGraph>) -> Seq<usize> {
    Seq::new(sentences.len(), |i: int| sentences[i].pieces().len() as usize)
}

/// The surface forms of a sentence.
pub open spec fn forms_of(tokens: Seq<TokenModel>) -> Seq<Seq<char>> {
    Seq::new(tokens.len(), |i: int| tokens[i].form)
}

/// The predictions for a batch fit it: one list per sentence of the batch,
/// each fitting its sentence.
pub open spec fn batch_fits(
    sentences: Seq<Seq<TokenModel>>,
    batch: Seq<usize>,
    notes: Seq<Vec<TokenAnnotation>>,
) -> bool {
    &&& notes.len() == batch.len()
    &&& forall|j: int|
        0 <= j < batch.len() ==> notes_fit(
            sentences[batch[j] as int].len(),
            (#[trigger] notes[j])@,
        )
}

/// `after` is `before` with the predictions of a batch laid over the
/// sentences of that batch, and every other sentence as it was.
pub open spec fn batch_applied(
    before: Seq<Seq<TokenModel>>,
    batch: Seq<usize>,
    notes: Seq<Vec<TokenAnnotation>>,
    after: Seq<Seq<TokenModel>>,
) -> bool {
    &&& after.len() == before.len()
    &&& forall|j: int|
        0 <= j < batch.len() ==> after[(#[trigger] batch[j]) as int] == annotated_tokens(
            before[batch[j] as int],
            notes[j]@,
        )
    &&& forall|i: int|
        0 <= i < before.len() && (forall|j: int| 0 <= j < batch.len() ==> batch[j] != i)
            ==> #[trigger] after[i] == before[i]
}

/// Laying predictions over a sentence keeps its length and its forms.
pub proof fn tagging_keeps_the_forms(tokens: Seq<TokenModel>, notes: Seq<TokenAnnotation>)
    ensures
        annotated_tokens(tokens, notes).len() == tokens.len(),
        forms_of(annotated_tokens(tokens, notes)) == forms_of(tokens),
{
    assert(forms_of(annotated_tokens(tokens, notes)) =~= forms_of(tokens));
}

/// Tagging a batch leaves every sentence at its place in the input, with
/// its length and its forms, whatever the batch and the predictions are.
pub proof fn a_batch_keeps_every_sentence_in_place(
    before: Seq<Seq<TokenModel>>,
    batch: Seq<usize>,
    notes: Seq<Vec<TokenAnnotation>>,
    after: Seq<Seq<TokenModel>>,
)
    requires
        batch_applied(before, batch, notes, after),
    ensures
        after.len() == before.len(),
        forall|i: int|
            0 <= i < before.len() ==> (#[trigger] after[i]).len() == before[i].len() && forms_of(
                after[i],
            ) == forms_of(before[i]),
{
    assert forall|i: int| 0 <= i < before.len() implies (#[trigger] after[i]).len()
        == before[i].len() && forms_of(after[i]) == forms_of(before[i]) by {
        if exists|j: int| 0 <= j < batch.len() && batch[j] == i {
            let j = choose|j: int| 0 <= j < batch.len() && batch[j] == i;
            assert(after[batch[j] as int] == annotated_tokens(before[i], notes[j]@));
            tagging_keeps_the_forms(before[i], notes[j]@);
        }
    }
}

/// A sentence made from forms has one token per form, in order.
pub proof fn blank_sentence_has_the_forms(forms: Seq<String>)
    ensures
        blanks(forms).len() == forms.len(),
        forall|i: int| 0 <= i < forms.len() ==> #[trigger] forms_of(blanks(forms))[i] == forms[i]@,
{
}

/// Whether the predictions fit the sentences that the batch names.
fn fits(sentences: &Vec<TokenGraph>, batch: &Vec<usize>, notes: &Vec<Vec<TokenAnnotation>>) -> (fit:
    bool)
    requires
        forall|j: int| 0 <= j < batch@.len() ==> (#[trigger] batch@[j]) < sentences@.len(),
    ensures
        fit == batch_fits(views(sentences@), batch@, notes@),
{
    if notes.len() != batch.len() {
        return false;
    }
    let mut j: usize = 0;
    while j < batch.len()
        invariant
            j <= batch@.len(),
            notes@.len() == batch@.len(),
            forall|j: int| 0 <= j < batch@.len() ==> (#[trigger] batch@[j]) < sentences@.len(),
            forall|i: int|
                0 <= i < j ==> notes_fit(
                    views(sentences@)[batch@[i] as int].len(),
                    (#[trigger] notes@[i])@,
                ),
        decreases batch@.len() - j,
    {
        let at: usize = batch[j];
        if !sentences[at].accepts(&notes[j]) {
            assert(!notes_fit(views(sentences@)[batch@[j as int] as int].len(), notes@[j as int]@));
            return false;
        }
        j += 1;
    }
    true
}

/// Lays the predictions over the sentences that the batch names.
fn lay_over(sentences: &mut Vec<TokenGraph>, batch: &Vec<usize>, notes: &Vec<Vec<TokenAnnotation>>)
    requires
        forall|j: int| 0 <= j < batch@.len() ==> (#[trigger] batch@[j]) < old(sentences)@.len(),
        forall|j: int, i: int|
            0 <= j < i < batch@.len() ==> #[trigger] batch@[j] != #[trigger] batch@[i],
        batch_fits(views(old(sentences)@), batch@, notes@),
    ensures
        batch_applied(views(old(sentences)@), batch@, notes@, views(final(sentences)@)),
        piece_counts(final(sentences)@) == piece_counts(old(sentences)@),
{
    let mut j: usize = 0;
    while j < batch.len()
        invariant
            j <= batch@.len(),
            sentences@.len() == old(sentences)@.len(),
            forall|j: int| 0 <= j < batch@.len() ==> (#[trigger] batch@[j]) < sentences@.len(),
            forall|j: int, i: int|
                0 <= j < i < batch@.len() ==> #[trigger] batch@[j] != #[trigger] batch@[i],
            batch_fits(views(old(sentences)@), batch@, notes@),
            forall|i: int|
                0 <= i < j ==> sentences@[(#[trigger] batch@[i]) as int]@ == annotated_tokens(
                    old(sentences)@[batch@[i] as int]@,
                    notes@[i]@,
                ),
            forall|p: int|
                0 <= p < sentences@.len() && (forall|i: int| 0 <= i < j ==> batch@[i] != p)
                    ==> #[trigger] sentences@[p] == old(sentences)@[p],
            forall|p: int|
                0 <= p < sentences@.len() ==> (#[trigger] sentences@[p]).pieces() == old(
                    sentences,
                )@[p].pieces(),
        decreases batch@.len() - j,
    {
        let at: usize = batch[j];
        proof {
            assert(notes_fit(views(old(sentences)@)[batch@[j as int] as int].len(), notes@[j as int]@));
            assert(forall|i: int| 0 <= i < j ==> batch@[i] != at);
        }
        let tagged = sentences[at].annotated(&notes[j]);
        let ghost before = sentences@;
        sentences.set(at, tagged);
        proof {
            assert forall|i: int| 0 <= i < j + 1 implies sentences@[(#[trigger] batch@[i]) as int]@
                == annotated_tokens(old(sentences)@[batch@[i] as int]@, notes@[i]@) by {
                if i < j {
                    assert(batch@[i] != batch@[j as int]);
                    assert(sentences@[batch@[i] as int] == before[batch@[i] as int]);
                }
            }
        }
        j += 1;
    }
    proof {
        assert(piece_counts(sentences@) =~= piece_counts(old(sentences)@));
        assert forall|i: int|
            0 <= i < sentences@.len() && (forall|j: int| 0 <= j < batch@.len() ==> batch@[j] != i)
            implies #[trigger] views(sentences@)[i] == views(old(sentences)@)[i] by {
            assert(sentences@[i] == old(sentences)@[i]);
        }
    }
}

/// A run over one list of sentences: which batch is due, and what has been
/// tagged so far.
pub struct AnnotationRun {
    sentences: Vec<TokenGraph>,
    order: Vec<usize>,
    batches: Vec<Vec<usize>>,
    next: usize,
    failed: bool,
}

impl AnnotationRun {
    /// The run is sound: every batch names sentences of the run, and none
    /// of them twice.
    pub closed spec fn wf(&self) -> bool {
        &&& self.next <= self.batches@.len()
        &&& forall|b: int, j: int|
            0 <= b < self.batches@.len() && 0 <= j < self.batches@[b]@.len() ==> (
            #[trigger] self.batches@[b]@[j]) < self.sentences@.len()
        &&& forall|b: int, j: int, i: int|
            0 <= b < self.batches@.len() && 0 <= j < i < self.batches@[b]@.len()
                ==> #[trigger] self.batches@[b]@[j] != #[trigger] self.batches@[b]@[i]
    }

    /// The sentences in input order, as tagged so far.
    pub closed spec fn sentences(&self) -> Seq<Seq<TokenModel>> {
        views(self.sentences@)
    }

    /// The number of pieces of each sentence, in input order.
    pub closed spec fn piece_counts(&self) -> Seq<usize> {
        piece_counts(self.sentences@)
    }

    /// The input positions in the order in which they are tagged.
    pub closed spec fn order(&self) -> Seq<usize> {
        self.order@
    }

    /// The batches, each a list of input positions.
    pub closed spec fn batches(&self) -> Seq<Vec<usize>> {
        self.batches@
    }

    /// The number of batches tagged so far.
    pub closed spec fn cursor(&self) -> nat {
        self.next as nat
    }

    /// A batch failed, or an outcome came that no batch was waiting for.
    pub closed spec fn failed(&self) -> bool {
        self.failed
    }

    /// A batch is due.
    pub open spec fn pending(&self) -> bool {
        !self.failed() && self.cursor() < self.batches().len()
    }

    /// Every batch has been tagged.
    pub open spec fn complete(&self) -> bool {
        !self.failed() && self.cursor() == self.batches().len()
    }

    /// Starts a run: the sentences are ordered by piece count and cut into
    /// batches of `batch_size`. A batch size of 0 gives no batch, so the
    /// run is complete at once and the sentences come back untagged.
    pub fn start(sentences: Vec<TokenGraph>, batch_size: usize) -> (run: AnnotationRun)
        ensures
            run.wf(),
            run.sentences() == views(sentences@),
            run.piece_counts() == piece_counts(sentences@),
            is_length_order(run.piece_counts(), run.order()),
            is_chunking(run.order(), batch_size as nat, run.batches()),
            run.cursor() == 0,
            !run.failed(),
    {
        let mut counts: Vec<usize> = Vec::new();
        let mut i: usize = 0;
        while i < sentences.len()
            invariant
                i <= sentences@.len(),
                counts@.len() == i,
                forall|k: int|
                    0 <= k < i ==> #[trigger] counts@[k] == sentences@[k].pieces().len() as usize,
            decreases sentences@.len() - i,
        {
            counts.push(sentences[i].piece_count());
            i += 1;
        }
        assert(counts@ =~= piece_counts(sentences@));
        let order = length_order(&counts);
        let batches = chunks(&order, batch_size);
        proof {
            if batch_size >= 1 {
                batches_hold_each_sentence_once(counts@, order@, batch_size as nat, batches@);
            }
        }
        AnnotationRun { sentences, order, batches, next: 0, failed: false }
    }

    /// The batch to tag next: the input positions of its sentences.
    pub fn next_batch(&self) -> (batch: Option<&Vec<usize>>)
        requires
            self.wf(),
        ensures
            match batch {
                Some(b) => self.pending() && *b == self.batches()[self.cursor() as int],
                None => !self.pending(),
            },
    {
        if !self.failed && self.next < self.batches.len() {
            Some(&self.batches[self.next])
        } else {
            None
        }
    }

    /// The sentence at an input position, as tagged so far.
    pub fn sentence(&self, at: usize) -> (sentence: Option<&TokenGraph>)
        ensures
            match sentence {
                Some(s) => at < self.sentences().len() && s@ == self.sentences()[at as int],
                None => at >= self.sentences().len(),
            },
    {
        if at < self.sentences.len() {
            Some(&self.sentences[at])
        } else {
            None
        }
    }

    /// Takes the outcome of tagging the batch that was due. Predictions
    /// that fit are laid over the sentences of the batch and the run moves
    /// on; a failure, predictions that do not fit, or an outcome that no
    /// batch was waiting for fail the run and change no sentence. Either
    /// way every sentence stays at its place in the input and keeps its
    /// forms.
    pub fn batch_tagged(&mut self, outcome: Result<Vec<Vec<TokenAnnotation>>, String>) -> (done:
        Result<(), AnnotatorError>)
        requires
            old(self).wf(),
        ensures
            final(self).wf(),
            final(self).batches() == old(self).batches(),
            final(self).order() == old(self).order(),
            final(self).piece_counts() == old(self).piece_counts(),
            final(self).sentences().len() == old(self).sentences().len(),
            forall|i: int|
                0 <= i < old(self).sentences().len() ==> forms_of(
                    #[trigger] final(self).sentences()[i],
                ) == forms_of(old(self).sentences()[i]),
            match done {
                Ok(_) => {
                    &&& old(self).pending()
                    &&& outcome matches Ok(notes)
                    &&& batch_fits(
                        old(self).sentences(),
                        old(self).batches()[old(self).cursor() as int]@,
                        notes@,
                    )
                    &&& batch_applied(
                        old(self).sentences(),
                        old(self).batches()[old(self).cursor() as int]@,
                        notes@,
                        final(self).sentences(),
                    )
                    &&& final(self).cursor() == old(self).cursor() + 1
                    &&& !final(self).failed()
                },
                Err(e) => {
                    &&& final(self).failed()
                    &&& final(self).sentences() == old(self).sentences()
                    &&& final(self).cursor() == old(self).cursor()
                    &&& e matches AnnotatorError::Tagging { cause }
                    &&& if !old(self).pending() {
                        cause@ == "no batch is due"@
                    } else {
                        match outcome {
                            Err(reason) => cause@ == reason@,
                            Ok(notes) => cause@ == "predictions do not fit the batch"@
                                && !batch_fits(
                                old(self).sentences(),
                                old(self).batches()[old(self).cursor() as int]@,
                                notes@,
                            ),
                        }
                    }
                },
            },
    {
        if self.failed || self.next >= self.batches.len() {
            self.failed = true;
            return Err(AnnotatorError::Tagging { cause: String::from_str("no batch is due") });
        }
        match outcome {
            Err(reason) => {
                self.failed = true;
                Err(AnnotatorError::Tagging { cause: reason })
            },
            Ok(notes) => {
                if fits(&self.sentences, &self.batches[self.next], &notes) {
                    lay_over(&mut self.sentences, &self.batches[self.next], &notes);
                    proof {
                        a_batch_keeps_every_sentence_in_place(
                            old(self).sentences(),
                            self.batches@[self.next as int]@,
                            notes@,
                            views(self.sentences@),
                        );
                    }
                    self.next += 1;
                    Ok(())
                } else {
                    self.failed = true;
                    Err(
                        AnnotatorError::Tagging {
                            cause: String::from_str("predictions do not fit the batch"),
                        },
                    )
                }
            },
        }
    }

    /// The sentences in input order, once every batch has been tagged.
    pub fn finish(self) -> (result: Option<Vec<PySentence>>)
        requires
            self.wf(),
        ensures
            match result {
                Some(views) => self.complete() && views@.len() == self.sentences().len()
                    && forall|i: int|
                    0 <= i < views@.len() ==> (#[trigger] views@[i])@ == self.sentences()[i],
                None => !self.complete(),
            },
    {
        if self.failed || self.next != self.batches.len() {
            return None;
        }
        let ghost all = self.sentences@;
        let mut stack = reversed(self.sentences);
        let ghost turned = stack@;
        let mut views: Vec<PySentence> = Vec::new();
        while stack.len() > 0
            invariant
                turned.len() == all.len(),
                forall|i: int| 0 <= i < turned.len() ==> #[trigger] turned[i] == all[all.len() - 1 - i],
                stack@ == turned.take(stack@.len() as int),
                views@.len() + stack@.len() == all.len(),
                forall|i: int| 0 <= i < views@.len() ==> (#[trigger] views@[i])@ == all[i]@,
            decreases stack@.len(),
        {
            let ghost top = stack@.len() - 1;
            let last = stack.pop();
            match last {
                Some(graph) => {
                    assert(graph == turned[top]);
                    views.push(PySentence::from(graph));
                },
                None => {},
            }
            assert(stack@ =~= turned.take(stack@.len() as int));
        }
        Some(views)
    }
}

/// The same stores, last first.
fn reversed(items: Vec<TokenGraph>) -> (turned: Vec<TokenGraph>)
    ensures
        turned@.len() == items@.len(),
        forall|i: int| 0 <= i < turned@.len() ==> #[trigger] turned@[i] == items@[items@.len() - 1 - i],
{
    let mut stack = items;
    let mut turned: Vec<TokenGraph> = Vec::new();
    while stack.len() > 0
        invariant
            stack@ == items@.take(stack@.len() as int),
            turned@.len() + stack@.len() == items@.len(),
            forall|i: int|
                0 <= i < turned@.len() ==> #[trigger] turned@[i] == items@[items@.len() - 1 - i],
        decreases stack@.len(),
    {
        let ghost top = stack@.len() - 1;
        let last = stack.pop();
        match last {
            Some(graph) => {
                assert(graph == items@[top]);
                turned.push(graph);
            },
            None => {},
        }
        assert(stack@ =~= items@.take(stack@.len() as int));
    }
    turned
}

/// The batch size that is used where the caller names none.
pub const DEFAULT_BATCH_SIZE: usize = 32;

/// The front of the pipeline: it knows where its configuration came from
/// and starts runs.
pub struct PyAnnotator {
    config_path: String,
}

impl PyAnnotator {
    /// The path of the configuration that the pipeline was built from.
    pub closed spec fn config_path(&self) -> Seq<char> {
        self.config_path@
    }

    /// The front of a pipeline that was built from the configuration at
    /// `config_path`.
    pub fn new(config_path: String) -> (annotator: PyAnnotator)
        ensures
            annotator.config_path() == config_path@,
    {
        PyAnnotator { config_path }
    }

    /// A short description for diagnostics.
    pub fn __repr__(&self) -> (text: String)
        ensures
            text@ == "Annotator(\""@ + self.config_path() + "\")"@,
    {
        let mut text = String::from_str("Annotator(\"");
        text.append(self.config_path.as_str());
        text.append("\")");
        text
    }

    /// Starts a run over raw sentences, each given as its forms and the
    /// pieces that the tokenizer made of them.
    pub fn annotate(&self, sentences: &Vec<(Vec<String>, Vec<i64>)>, batch_size: usize) -> (run:
        AnnotationRun)
        requires
            forall|i: int| 0 <= i < sentences@.len() ==> (#[trigger] sentences@[i]).0@.len() < usize::MAX,
        ensures
            run.wf(),
            run.sentences().len() == sentences@.len(),
            forall|i: int|
                0 <= i < sentences@.len() ==> #[trigger] run.sentences()[i] == blanks(
                    sentences@[i].0@,
                ),
            run.piece_counts().len() == sentences@.len(),
            forall|i: int|
                0 <= i < sentences@.len() ==> #[trigger] run.piece_counts()[i]
                    == sentences@[i].1@.len() as usize,
            is_length_order(run.piece_counts(), run.order()),
            is_chunking(run.order(), batch_size as nat, run.batches()),
            run.cursor() == 0,
            !run.failed(),
    {
        let mut graphs: Vec<TokenGraph> = Vec::new();
        let mut i: usize = 0;
        while i < sentences.len()
            invariant
                i <= sentences@.len(),
                graphs@.len() == i,
                forall|k: int|
                    0 <= k < sentences@.len() ==> (#[trigger] sentences@[k]).0@.len() < usize::MAX,
                forall|k: int|
                    0 <= k < i ==> (#[trigger] graphs@[k])@ == blanks(sentences@[k].0@)
                        && graphs@[k].pieces() == sentences@[k].1@,
            decreases sentences@.len() - i,
        {
            let pair = &sentences[i];
            graphs.push(TokenGraph::from_forms(&pair.0, &pair.1));
            i += 1;
        }
        self.annotate_sentences(graphs, batch_size)
    }

    /// Starts a run over tokenized sentences.
    pub fn annotate_sentences(&self, sentences: Vec<TokenGraph>, batch_size: usize) -> (run:
        AnnotationRun)
        ensures
            run.wf(),
            run.sentences() == views(sentences@),
            run.piece_counts() == piece_counts(sentences@),
            is_length_order(run.piece_counts(), run.order()),
            is_chunking(run.order(), batch_size as nat, run.batches()),
            run.cursor() == 0,
            !run.failed(),
    {
        AnnotationRun::start(sentences, batch_size)
    }
}

/// The version of the tagging library that these views are written for.
/// A binding that links the tagging library reports the version it links.
pub fn syntaxdot_version() -> (version: &'static str)
    ensures
        version@ == "0.5.0"@,
{
    "0.5.0"
}

} // verus!
