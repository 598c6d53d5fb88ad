//! Building a pipeline is a fixed chain of loading steps. The chain and
//! the error that a failed step gives are decided here; the steps
//! themselves are carried out by the caller.

use crate::annotator::AnnotatorError;
use vstd::prelude::*;

verus! {

/// One step of building a pipeline.
#[derive(Clone, Copy, PartialEq, Eq, Structural, Debug)]
pub enum LoadStep {
    /// Read and parse the configuration, and resolve its paths.
    Configuration,
    /// Load the labels of the dependency parser.
    ParserLabels,
    /// Load the labels of the tagger.
    Labels,
    /// Build the tokenizer.
    Tokenizer,
    /// Load the configuration of the pretrained model.
    PretrainConfiguration,
    /// Build the model.
    Model,
    /// Load the trained parameters, which are then frozen.
    Parameters,
}

/// The step that follows `done` (`None`: nothing has been done yet), or
/// `None` once the pipeline can be assembled. The parser's labels are
/// loaded only where the configuration declares a parser.
pub open spec fn step_after(done: Option<LoadStep>, has_parser: bool) -> Option<LoadStep> {
    match done {
        None => Some(LoadStep::Configuration),
        Some(LoadStep::Configuration) => if has_parser {
            Some(LoadStep::ParserLabels)
        } else {
            Some(LoadStep::Labels)
        },
        Some(LoadStep::ParserLabels) => Some(LoadStep::Labels),
        Some(LoadStep::Labels) => Some(LoadStep::Tokenizer),
        Some(LoadStep::Tokenizer) => Some(LoadStep::PretrainConfiguration),
        Some(LoadStep::PretrainConfiguration) => Some(LoadStep::Model),
        Some(LoadStep::Model) => Some(LoadStep::Parameters),
        Some(LoadStep::Parameters) => None,
    }
}

/// The place of a step in the chain.
pub open spec fn rank(step: LoadStep) -> nat {
    match step {
        LoadStep::Configuration => 0,
        LoadStep::ParserLabels => 1,
        LoadStep::Labels => 2,
        LoadStep::Tokenizer => 3,
        LoadStep::PretrainConfiguration => 4,
        LoadStep::Model => 5,
        LoadStep::Parameters => 6,
    }
}

/// The error that a failure of `step` gives.
pub open spec fn failure_of(step: LoadStep, path: String, cause: String) -> AnnotatorError {
    match step {
        LoadStep::Configuration | LoadStep::PretrainConfiguration => AnnotatorError::Config {
            path,
            cause,
        },
        LoadStep::ParserLabels | LoadStep::Labels => AnnotatorError::LabelLoad { path, cause },
        LoadStep::Tokenizer => AnnotatorError::TokenizerLoad { cause },
        LoadStep::Model => AnnotatorError::ModelBuild { cause },
        LoadStep::Parameters => AnnotatorError::ParameterLoad { path, cause },
    }
}

/// The chain only moves forward, one step at a time but for the parser's
/// labels, which are passed over where there is no parser.
pub proof fn steps_move_forward(done: LoadStep, has_parser: bool)
    ensures
        match step_after(Some(done), has_parser) {
            Some(next) => rank(next) == rank(done) + 1 || (rank(done) == 0 && !has_parser && rank(
                next,
            ) == 2),
            None => done == LoadStep::Parameters,
        },
{
}

/// The step to carry out next.
pub fn next_step(done: Option<LoadStep>, has_parser: bool) -> (next: Option<LoadStep>)
    ensures
        next == step_after(done, has_parser),
{
    match done {
        None => Some(LoadStep::Configuration),
        Some(LoadStep::Configuration) => {
            if has_parser {
                Some(LoadStep::ParserLabels)
            } else {
                Some(LoadStep::Labels)
            }
        },
        Some(LoadStep::ParserLabels) => Some(LoadStep::Labels),
        Some(LoadStep::Labels) => Some(LoadStep::Tokenizer),
        Some(LoadStep::Tokenizer) => Some(LoadStep::PretrainConfiguration),
        Some(LoadStep::PretrainConfiguration) => Some(LoadStep::Model),
        Some(LoadStep::Model) => Some(LoadStep::Parameters),
        Some(LoadStep::Parameters) => None,
    }
}

/// The error for a step that failed on the resource at `path`.
pub fn failure(step: LoadStep, path: String, cause: String) -> (error: AnnotatorError)
    ensures
        error == failure_of(step, path, cause),
{
    match step {
        LoadStep::Configuration => AnnotatorError::Config { path, cause },
        LoadStep::PretrainConfiguration => AnnotatorError::Config { path, cause },
        LoadStep::ParserLabels => AnnotatorError::LabelLoad { path, cause },
        LoadStep::Labels => AnnotatorError::LabelLoad { path, cause },
        LoadStep::Tokenizer => AnnotatorError::TokenizerLoad { cause },
        LoadStep::Model => AnnotatorError::ModelBuild { cause },
        LoadStep::Parameters => AnnotatorError::ParameterLoad { path, cause },
    }
}

/// The number of relations that the model is built for: that of the
/// parser's labels, or none without a parser.
pub fn relation_count(parser_relations: Option<usize>) -> (count: usize)
    ensures
        count == match parser_relations {
            Some(n) => n,
            None => 0,
        },
{
    match parser_relations {
        Some(n) => n,
        None => 0,
    }
}

} // verus!
