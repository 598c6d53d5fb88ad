use syntaxdot_views::annotator::AnnotatorError;
use syntaxdot_views::loading::{failure, next_step, relation_count, LoadStep};
use syntaxdot_views::sentence::PySentence;
use syntaxdot_views::store::{keys_are_distinct, Feature, TokenAnnotation, TokenGraph};

fn chain(has_parser: bool) -> Vec<LoadStep> {
    let mut steps = Vec::new();
    let mut done = None;
    while let Some(step) = next_step(done, has_parser) {
        steps.push(step);
        done = Some(step);
    }
    steps
}

fn feature(key: &str, value: &str) -> Feature {
    Feature { key: key.to_string(), value: value.to_string() }
}

#[test]
fn the_chain_with_a_parser_loads_its_labels_first() {
    assert_eq!(
        chain(true),
        vec![
            LoadStep::Configuration,
            LoadStep::ParserLabels,
            LoadStep::Labels,
            LoadStep::Tokenizer,
            LoadStep::PretrainConfiguration,
            LoadStep::Model,
            LoadStep::Parameters,
        ]
    );
}

#[test]
fn the_chain_without_a_parser_passes_over_its_labels() {
    assert_eq!(
        chain(false),
        vec![
            LoadStep::Configuration,
            LoadStep::Labels,
            LoadStep::Tokenizer,
            LoadStep::PretrainConfiguration,
            LoadStep::Model,
            LoadStep::Parameters,
        ]
    );
}

#[test]
fn each_step_fails_with_its_own_error() {
    let fail = |step| failure(step, "p".to_string(), "c".to_string());
    assert!(matches!(fail(LoadStep::Configuration), AnnotatorError::Config { .. }));
    assert!(matches!(fail(LoadStep::PretrainConfiguration), AnnotatorError::Config { .. }));
    assert!(matches!(fail(LoadStep::ParserLabels), AnnotatorError::LabelLoad { .. }));
    assert!(matches!(fail(LoadStep::Labels), AnnotatorError::LabelLoad { .. }));
    assert!(matches!(fail(LoadStep::Tokenizer), AnnotatorError::TokenizerLoad { .. }));
    assert!(matches!(fail(LoadStep::Model), AnnotatorError::ModelBuild { .. }));
    assert!(matches!(fail(LoadStep::Parameters), AnnotatorError::ParameterLoad { .. }));
    assert_eq!(fail(LoadStep::Labels).message(), "Cannot load labels from p: c");
    assert_eq!(fail(LoadStep::Parameters).message(), "Cannot load model parameters from p: c");
}

#[test]
fn a_model_without_a_parser_has_no_relations() {
    assert_eq!(relation_count(None), 0);
    assert_eq!(relation_count(Some(37)), 37);
}

#[test]
fn feature_keys_are_compared_exactly() {
    assert!(keys_are_distinct(&Vec::new()));
    assert!(keys_are_distinct(&vec![feature("Case", "Nom"), feature("case", "Nom")]));
    assert!(keys_are_distinct(&vec![feature("a", "1"), feature("b", "1"), feature("c", "1")]));
    assert!(!keys_are_distinct(&vec![feature("a", "1"), feature("b", "2"), feature("a", "3")]));
    assert!(!keys_are_distinct(&vec![feature("a", "1"), feature("a", "1")]));
}

#[test]
fn predictions_with_a_repeated_key_do_not_fit() {
    let graph = TokenGraph::from_forms(&vec!["a".to_string()], &vec![1]);
    let repeated = vec![TokenAnnotation {
        features: vec![feature("Case", "Nom"), feature("Case", "Acc")],
        upos: None,
        xpos: None,
        arc: None,
    }];
    assert!(!graph.accepts(&repeated));
}

#[test]
fn all_tokens_at_once_are_those_of_a_walk() {
    let forms = vec!["x".to_string(), "y".to_string(), "z".to_string()];
    let sentence = PySentence::from(TokenGraph::from_forms(&forms, &Vec::new()));
    let tokens = sentence.tokens();
    assert_eq!(tokens.len(), 3);
    let mut iter = sentence.__iter__();
    for token in &tokens {
        let walked = iter.__next__().expect("as many tokens");
        assert_eq!(token.form(), walked.form());
    }
    assert!(iter.__next__().is_none());
    assert_eq!(tokens.iter().map(|t| t.form()).collect::<Vec<_>>(), vec!["x", "y", "z"]);
    assert!(PySentence::from(TokenGraph::from_forms(&Vec::new(), &Vec::new())).tokens().is_empty());
}
