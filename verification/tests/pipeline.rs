use syntaxdot_views::annotator::{
    syntaxdot_version, AnnotationRun, AnnotatorError, PyAnnotator, DEFAULT_BATCH_SIZE,
};
use syntaxdot_views::batching::{chunks, length_order};
use syntaxdot_views::store::{DepArc, TokenAnnotation, TokenGraph};

fn sentence_of(len: usize, pieces: usize) -> (Vec<String>, Vec<i64>) {
    ((0..len).map(|i| format!("w{}", i)).collect(), (0..pieces).map(|_| 1_i64).collect())
}

fn tagged_as(len: usize, tag: &str) -> Vec<TokenAnnotation> {
    (0..len)
        .map(|_| TokenAnnotation {
            features: Vec::new(),
            upos: Some(tag.to_string()),
            xpos: None,
            arc: None,
        })
        .collect()
}

fn drive(run: &mut AnnotationRun) -> Vec<Vec<usize>> {
    let mut seen = Vec::new();
    loop {
        let batch = match run.next_batch() {
            Some(batch) => batch.clone(),
            None => break,
        };
        let mut notes = Vec::new();
        for &at in &batch {
            let len = run.sentence(at).expect("a position of the run").len() - 1;
            notes.push(tagged_as(len, &format!("S{}", at)));
        }
        assert!(run.batch_tagged(Ok(notes)).is_ok());
        seen.push(batch);
    }
    seen
}

#[test]
fn order_by_length_keeps_ties_in_input_order() {
    assert_eq!(length_order(&vec![3, 1, 3, 1, 2]), vec![1, 3, 4, 0, 2]);
    assert_eq!(length_order(&vec![5, 4, 3, 2, 1]), vec![4, 3, 2, 1, 0]);
    assert_eq!(length_order(&vec![1, 1, 1]), vec![0, 1, 2]);
    assert_eq!(length_order(&Vec::new()), Vec::<usize>::new());
}

#[test]
fn chunks_are_consecutive_and_the_last_may_be_short() {
    let order = vec![4, 2, 0, 3, 1];
    assert_eq!(chunks(&order, 2), vec![vec![4, 2], vec![0, 3], vec![1]]);
    assert_eq!(chunks(&order, 5), vec![vec![4, 2, 0, 3, 1]]);
    assert_eq!(chunks(&order, 1), vec![vec![4], vec![2], vec![0], vec![3], vec![1]]);
    assert_eq!(chunks(&vec![7, 8, 9, 10], 2), vec![vec![7, 8], vec![9, 10]]);
}

#[test]
fn a_batch_size_above_the_count_gives_one_batch() {
    assert_eq!(chunks(&vec![1, 0], 32), vec![vec![1, 0]]);
    assert_eq!(chunks(&vec![1, 0], usize::MAX), vec![vec![1, 0]]);
}

#[test]
fn no_sentences_or_a_batch_size_of_zero_give_no_batch() {
    assert!(chunks(&Vec::new(), 4).is_empty());
    assert!(chunks(&vec![0, 1, 2], 0).is_empty());
}

#[test]
fn empty_input_gives_an_empty_result() {
    let annotator = PyAnnotator::new("model.conf".to_string());
    let mut run = annotator.annotate(&Vec::new(), DEFAULT_BATCH_SIZE);
    assert!(drive(&mut run).is_empty());
    let views = run.finish().expect("nothing was left to tag");
    assert!(views.is_empty());
}

#[test]
fn the_shorter_sentence_is_tagged_first_and_returned_second() {
    let annotator = PyAnnotator::new("model.conf".to_string());
    let input = vec![sentence_of(10, 12), sentence_of(2, 3)];
    let mut run = annotator.annotate(&input, 1);
    let batches = drive(&mut run);
    assert_eq!(batches, vec![vec![1], vec![0]]);
    let views = run.finish().expect("both batches were tagged");
    assert_eq!(views.len(), 2);
    assert_eq!(views[0].__len__(), 10);
    assert_eq!(views[1].__len__(), 2);
    assert_eq!(views[0].__getitem__(0).ok().and_then(|t| t.get_upos().map(String::from)), Some("S0".to_string()));
    assert_eq!(views[1].__getitem__(0).ok().and_then(|t| t.get_upos().map(String::from)), Some("S1".to_string()));
}

#[test]
fn results_keep_the_input_order_for_every_batch_size() {
    let pieces = [9_usize, 3, 7, 3, 1, 12, 5];
    for batch_size in 1..10 {
        let annotator = PyAnnotator::new("model.conf".to_string());
        let input: Vec<_> = pieces.iter().enumerate().map(|(i, &p)| sentence_of(i, p)).collect();
        let mut run = annotator.annotate(&input, batch_size);
        let batches = drive(&mut run);
        let mut tagged: Vec<usize> = batches.iter().flatten().copied().collect();
        assert_eq!(tagged, vec![4, 1, 3, 6, 2, 0, 5]);
        assert!(batches.iter().all(|b| !b.is_empty() && b.len() <= batch_size));
        assert_eq!(batches.len(), (pieces.len() + batch_size - 1) / batch_size);
        tagged.sort();
        assert_eq!(tagged, (0..pieces.len()).collect::<Vec<_>>());
        let views = run.finish().expect("every batch was tagged");
        assert_eq!(views.len(), pieces.len());
        for (i, view) in views.iter().enumerate() {
            assert_eq!(view.__len__(), i);
            let mut iter = view.__iter__();
            let mut k = 0;
            while let Some(token) = iter.__next__() {
                assert_eq!(token.form(), format!("w{}", k));
                assert_eq!(token.get_upos(), Some(format!("S{}", i).as_str()));
                k += 1;
            }
            assert_eq!(k, i);
        }
    }
}

#[test]
fn a_batch_size_of_zero_tags_nothing() {
    let annotator = PyAnnotator::new("model.conf".to_string());
    let input = vec![sentence_of(2, 2), sentence_of(1, 1)];
    let mut run = annotator.annotate(&input, 0);
    assert!(drive(&mut run).is_empty());
    let views = run.finish().expect("no batch was due");
    assert_eq!(views.len(), 2);
    assert_eq!(views[0].__len__(), 2);
    assert_eq!(views[0].__getitem__(0).ok().and_then(|t| t.get_upos().map(String::from)), None);
}

#[test]
fn a_run_over_tokenized_sentences() {
    let annotator = PyAnnotator::new("model.conf".to_string());
    let graphs = vec![
        TokenGraph::from_forms(&vec!["long".to_string(), "one".to_string()], &vec![1, 2, 3]),
        TokenGraph::from_forms(&vec!["short".to_string()], &vec![1]),
    ];
    let mut run = annotator.annotate_sentences(graphs, 2);
    assert_eq!(drive(&mut run), vec![vec![1, 0]]);
    let views = run.finish().expect("the batch was tagged");
    assert_eq!(views[0].__getitem__(-1).ok().map(|t| t.form().to_string()), Some("one".to_string()));
    assert_eq!(views[1].__getitem__(-1).ok().map(|t| t.form().to_string()), Some("short".to_string()));
}

#[test]
fn predictions_that_do_not_fit_fail_the_run() {
    let annotator = PyAnnotator::new("model.conf".to_string());
    let input = vec![sentence_of(2, 2)];
    let mut run = annotator.annotate(&input, 4);
    let out_of_range = vec![vec![
        TokenAnnotation {
            features: Vec::new(),
            upos: None,
            xpos: None,
            arc: Some(DepArc { head: 3, relation: "dep".to_string() }),
        },
        TokenAnnotation { features: Vec::new(), upos: None, xpos: None, arc: None },
    ]];
    match run.batch_tagged(Ok(out_of_range)) {
        Err(AnnotatorError::Tagging { cause }) => {
            assert_eq!(cause, "predictions do not fit the batch")
        }
        other => panic!("unexpected outcome: {:?}", other),
    }
    assert!(run.finish().is_none());

    let mut run = annotator.annotate(&input, 4);
    assert!(run.batch_tagged(Ok(Vec::new())).is_err());
    let mut run = annotator.annotate(&input, 4);
    assert!(run.batch_tagged(Ok(vec![tagged_as(3, "X")])).is_err());
}

#[test]
fn an_outcome_without_a_batch_fails_the_run() {
    let annotator = PyAnnotator::new("model.conf".to_string());
    let mut run = annotator.annotate(&Vec::new(), 4);
    match run.batch_tagged(Ok(Vec::new())) {
        Err(AnnotatorError::Tagging { cause }) => assert_eq!(cause, "no batch is due"),
        other => panic!("unexpected outcome: {:?}", other),
    }
    assert!(run.finish().is_none());
}

#[test]
fn a_run_is_not_finished_while_a_batch_is_due() {
    let annotator = PyAnnotator::new("model.conf".to_string());
    let run = annotator.annotate(&vec![sentence_of(1, 1)], 4);
    assert!(run.finish().is_none());
}

#[test]
fn every_error_names_its_resource_and_cause() {
    let path = || "conf/model.toml".to_string();
    let cause = || "no such file".to_string();
    assert_eq!(
        AnnotatorError::Config { path: path(), cause: cause() }.message(),
        "Cannot read configuration from conf/model.toml: no such file"
    );
    assert_eq!(
        AnnotatorError::LabelLoad { path: path(), cause: cause() }.message(),
        "Cannot load labels from conf/model.toml: no such file"
    );
    assert_eq!(
        AnnotatorError::TokenizerLoad { cause: cause() }.message(),
        "Cannot load tokenizer: no such file"
    );
    assert_eq!(
        AnnotatorError::ModelBuild { cause: cause() }.message(),
        "Cannot construct model: no such file"
    );
    assert_eq!(
        AnnotatorError::ParameterLoad { path: path(), cause: cause() }.message(),
        "Cannot load model parameters from conf/model.toml: no such file"
    );
    assert_eq!(
        AnnotatorError::Tagging { cause: cause() }.message(),
        "Cannot annotate sentences: no such file"
    );
}

#[test]
fn the_annotator_describes_itself_by_its_configuration() {
    let annotator = PyAnnotator::new("conf/model.toml".to_string());
    assert_eq!(annotator.__repr__(), "Annotator(\"conf/model.toml\")");
}

#[test]
fn the_version_is_fixed() {
    assert_eq!(syntaxdot_version(), "0.5.0");
    assert_eq!(DEFAULT_BATCH_SIZE, 32);
}
