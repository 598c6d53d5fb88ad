use syntaxdot_views::annotator::{AnnotationRun, AnnotatorError, PyAnnotator};
use syntaxdot_views::sentence::{PySentence, PyToken};
use syntaxdot_views::store::{DepArc, Feature, TokenAnnotation, TokenGraph};

fn words(forms: &[&str]) -> Vec<String> {
    forms.iter().map(|f| f.to_string()).collect()
}

fn plain() -> TokenAnnotation {
    TokenAnnotation { features: Vec::new(), upos: None, xpos: None, arc: None }
}

fn with_arc(head: usize, relation: &str) -> TokenAnnotation {
    TokenAnnotation {
        features: Vec::new(),
        upos: None,
        xpos: None,
        arc: Some(DepArc { head, relation: relation.to_string() }),
    }
}

fn the_dog_runs() -> PySentence {
    let graph = TokenGraph::from_forms(&words(&["The", "dog", "runs"]), &vec![1, 2, 3, 4]);
    let notes = vec![
        TokenAnnotation {
            features: vec![Feature { key: "Definite".to_string(), value: "Def".to_string() }],
            upos: Some("DET".to_string()),
            xpos: Some("DT".to_string()),
            arc: Some(DepArc { head: 2, relation: "det".to_string() }),
        },
        TokenAnnotation {
            features: vec![Feature { key: "Number".to_string(), value: "Sing".to_string() }],
            upos: Some("NOUN".to_string()),
            xpos: None,
            arc: Some(DepArc { head: 3, relation: "nsubj".to_string() }),
        },
        TokenAnnotation {
            features: vec![
                Feature { key: "Number".to_string(), value: "Sing".to_string() },
                Feature { key: "Tense".to_string(), value: "Pres".to_string() },
            ],
            upos: Some("VERB".to_string()),
            xpos: Some("VBZ".to_string()),
            arc: Some(DepArc { head: 0, relation: "root".to_string() }),
        },
    ];
    assert!(graph.accepts(&notes));
    PySentence::from(graph.annotated(&notes))
}

fn token(sentence: &PySentence, idx: isize) -> PyToken {
    match sentence.__getitem__(idx) {
        Ok(token) => token,
        Err(e) => panic!("{}", e.message()),
    }
}

fn summary(token: &PyToken) -> (String, Option<String>, Option<String>, Option<usize>, Option<String>) {
    (
        token.form().to_string(),
        token.get_upos().map(|s| s.to_string()),
        token.get_xpos().map(|s| s.to_string()),
        token.get_head(),
        token.get_relation(),
    )
}

fn walk(sentence: &PySentence) -> Vec<PyToken> {
    let mut iter = sentence.__iter__();
    let mut tokens = Vec::new();
    while let Some(token) = iter.__next__() {
        tokens.push(token);
    }
    assert!(iter.__next__().is_none());
    tokens
}

#[test]
fn length_leaves_the_root_out() {
    let sentence = the_dog_runs();
    assert_eq!(sentence.__len__(), 3);
    let graph = TokenGraph::from_forms(&words(&["a", "b"]), &vec![]);
    assert_eq!(graph.len(), 3);
    assert_eq!(graph.piece_count(), 0);
    assert_eq!(PySentence::from(graph).__len__(), 2);
}

#[test]
fn a_sentence_without_tokens_has_length_zero() {
    let sentence = PySentence::from(TokenGraph::from_forms(&Vec::new(), &vec![7]));
    assert_eq!(sentence.__len__(), 0);
    assert!(sentence.__getitem__(0).is_err());
    assert!(sentence.__getitem__(-1).is_err());
    assert!(walk(&sentence).is_empty());
}

#[test]
fn indices_from_the_front() {
    let sentence = the_dog_runs();
    assert_eq!(token(&sentence, 0).form(), "The");
    assert_eq!(token(&sentence, 1).form(), "dog");
    assert_eq!(token(&sentence, 2).form(), "runs");
}

#[test]
fn negative_indices_count_from_the_end() {
    let sentence = the_dog_runs();
    let len = sentence.__len__() as isize;
    assert_eq!(summary(&token(&sentence, -1)), summary(&token(&sentence, len - 1)));
    assert_eq!(summary(&token(&sentence, -len)), summary(&token(&sentence, 0)));
    assert_eq!(token(&sentence, -1).form(), "runs");
    assert_eq!(token(&sentence, -2).form(), "dog");
    assert_eq!(token(&sentence, -3).form(), "The");
}

#[test]
fn indices_outside_the_sentence_are_refused() {
    let sentence = the_dog_runs();
    for idx in [3, 4, -4, -5, isize::MAX, isize::MIN] {
        match sentence.__getitem__(idx) {
            Ok(_) => panic!("index {} was accepted", idx),
            Err(e) => assert_eq!(e.message(), "token index out of range"),
        }
    }
}

#[test]
fn heads_are_reported_without_the_root_slot() {
    let sentence = the_dog_runs();
    assert_eq!(token(&sentence, 0).get_head(), Some(1));
    assert_eq!(token(&sentence, 1).get_head(), Some(2));
    assert_eq!(token(&sentence, 1).get_relation(), Some("nsubj".to_string()));
    assert_eq!(token(&sentence, 2).get_head(), Some(0));
    assert_eq!(token(&sentence, 2).get_relation(), Some("root".to_string()));
}

#[test]
fn head_and_relation_come_together() {
    let sentence = the_dog_runs();
    for t in walk(&sentence) {
        assert_eq!(t.get_head().is_some(), t.get_relation().is_some());
    }
    let bare = PySentence::from(TokenGraph::from_forms(&words(&["x", "y"]), &vec![1, 2]));
    for t in walk(&bare) {
        assert_eq!(t.get_head(), None);
        assert_eq!(t.get_relation(), None);
        assert_eq!(t.get_upos(), None);
        assert_eq!(t.get_xpos(), None);
        assert!(t.get_features().is_empty());
    }
}

#[test]
fn tags_and_features_are_read_back() {
    let sentence = the_dog_runs();
    let the = token(&sentence, 0);
    assert_eq!(the.get_upos(), Some("DET"));
    assert_eq!(the.get_xpos(), Some("DT"));
    assert_eq!(the.get_features(), vec![("Definite".to_string(), "Def".to_string())]);
    let dog = token(&sentence, 1);
    assert_eq!(dog.get_upos(), Some("NOUN"));
    assert_eq!(dog.get_xpos(), None);
    let runs = token(&sentence, 2);
    assert_eq!(
        runs.get_features(),
        vec![
            ("Number".to_string(), "Sing".to_string()),
            ("Tense".to_string(), "Pres".to_string()),
        ]
    );
}

#[test]
fn iteration_yields_every_token_once_in_order() {
    let sentence = the_dog_runs();
    let tokens = walk(&sentence);
    assert_eq!(tokens.len(), sentence.__len__());
    let forms: Vec<String> = tokens.iter().map(|t| t.form().to_string()).collect();
    assert_eq!(forms, words(&["The", "dog", "runs"]));
}

#[test]
fn iteration_can_be_repeated() {
    let sentence = the_dog_runs();
    let first: Vec<_> = walk(&sentence).iter().map(summary).collect();
    let second: Vec<_> = walk(&sentence).iter().map(summary).collect();
    assert_eq!(first, second);
    assert_eq!(first.len(), 3);
}

#[test]
fn a_cursor_is_its_own_iterator() {
    let sentence = the_dog_runs();
    let mut iter = sentence.__iter__();
    assert_eq!(iter.__next__().map(|t| t.form().to_string()), Some("The".to_string()));
    let mut same = iter.__iter__();
    assert_eq!(same.__next__().map(|t| t.form().to_string()), Some("dog".to_string()));
}

#[test]
fn a_token_outlives_its_sentence_view() {
    let sentence = the_dog_runs();
    let dog = token(&sentence, 1);
    let mut iter = sentence.__iter__();
    drop(sentence);
    assert_eq!(dog.form(), "dog");
    assert_eq!(dog.get_head(), Some(2));
    assert_eq!(iter.__next__().map(|t| t.form().to_string()), Some("The".to_string()));
}

#[test]
fn a_token_describes_itself_by_its_form() {
    let sentence = the_dog_runs();
    assert_eq!(token(&sentence, 1).__repr__(), "Token(form=\"dog\")");
}

#[test]
fn predictions_must_fit_the_sentence() {
    let graph = TokenGraph::from_forms(&words(&["a", "b"]), &vec![1]);
    assert!(graph.accepts(&vec![plain(), plain()]));
    assert!(graph.accepts(&vec![with_arc(0, "root"), with_arc(2, "dep")]));
    assert!(!graph.accepts(&vec![plain()]));
    assert!(!graph.accepts(&vec![plain(), plain(), plain()]));
    assert!(!graph.accepts(&vec![plain(), with_arc(3, "dep")]));
}

#[test]
fn one_sentence_is_tagged_and_read() {
    let annotator = PyAnnotator::new("model.conf".to_string());
    let input = vec![(words(&["The", "dog", "runs"]), vec![101, 5, 6, 7])];
    let mut run: AnnotationRun = annotator.annotate(&input, 32);
    assert_eq!(run.next_batch(), Some(&vec![0]));
    let notes = vec![vec![plain(), with_arc(3, "nsubj"), with_arc(0, "root")]];
    assert!(run.batch_tagged(Ok(notes)).is_ok());
    assert_eq!(run.next_batch(), None);
    let views = run.finish().expect("the run is complete");
    assert_eq!(views.len(), 1);
    assert_eq!(views[0].__len__(), 3);
    assert_eq!(token(&views[0], 0).form(), "The");
    assert_eq!(token(&views[0], 1).get_head(), Some(2));
    assert_eq!(token(&views[0], 1).get_relation(), Some("nsubj".to_string()));
}

#[test]
fn a_failed_batch_fails_the_run() {
    let annotator = PyAnnotator::new("model.conf".to_string());
    let input = vec![(words(&["a"]), vec![1]), (words(&["b", "c"]), vec![1, 2])];
    let mut run = annotator.annotate(&input, 1);
    assert!(run.batch_tagged(Ok(vec![vec![plain()]])).is_ok());
    match run.batch_tagged(Err("out of memory".to_string())) {
        Err(AnnotatorError::Tagging { cause }) => assert_eq!(cause, "out of memory"),
        other => panic!("unexpected outcome: {:?}", other),
    }
    assert_eq!(run.next_batch(), None);
    assert!(run.finish().is_none());
}
