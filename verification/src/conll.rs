//! Reading dependency graphs of the `udgraph` crate into the store's own
//! types, and making the blank graphs that a tokenizer and a tagger fill.

use crate::store::{
    blank, token_is_sound, tokens_are_sound, DepArc, Feature, Token, TokenAnnotation, TokenGraph,
    TokenModel,
};
use udgraph::graph::Sentence;
use vstd::prelude::*;
use vstd::string::StringExecFns;

verus! {

/// `udgraph::graph::Sentence`: a dependency graph, carried as an opaque
/// value. What it holds is named by `sentence_tokens` and `sentence_heads`.
#[verifier::external_type_specification]
#[verifier::external_body]
pub struct ExSentence(udgraph::graph::Sentence);

/// What each node of a graph holds, by index: nothing for a root node,
/// else the token's form, features and tags (its arc is kept apart, in
/// `sentence_heads`).
pub uninterp spec fn sentence_tokens(sentence: Sentence) -> Seq<Option<TokenModel>>;

/// The incoming arc of each node, by index: the head's index and the
/// label, where the arc has one.
pub uninterp spec fn sentence_heads(sentence: Sentence) -> Seq<Option<(nat, Option<Seq<char>>)>>;

/// `Sentence::len`: the number of nodes, the root included.
#[verifier::external_body]
fn node_count(sentence: &Sentence) -> (n: usize)
    ensures
        n == sentence_tokens(*sentence).len(),
        n == sentence_heads(*sentence).len(),
{
    sentence.len()
}

/// Indexing a `Sentence` and `Node::token`: the token of a node, copied
/// field by field, or nothing for a root node.
#[verifier::external_body]
fn node_token(sentence: &Sentence, slot: usize) -> (token: Option<Token>)
    requires
        slot < sentence_tokens(*sentence).len(),
    ensures
        match token {
            Some(t) => sentence_tokens(*sentence)[slot as int] == Some(t.lexical(None)),
            None => sentence_tokens(*sentence)[slot as int] is None,
        },
{
    sentence[slot].token().map(
        |t|
            Token {
                form: t.form().to_owned(),
                features: t.features().iter().map(
                    |(k, v)| Feature { key: k.clone(), value: v.clone() },
                ).collect(),
                upos: t.upos().map(str::to_owned),
                xpos: t.xpos().map(str::to_owned),
            },
    )
}

/// `DepGraph::head`: the incoming arc of a node as head index and label,
/// or nothing where the node has no head.
#[verifier::external_body]
fn node_head(sentence: &Sentence, slot: usize) -> (head: Option<(usize, Option<String>)>)
    requires
        slot < sentence_heads(*sentence).len(),
    ensures
        match head {
            Some((h, Some(r))) => sentence_heads(*sentence)[slot as int] == Some(
                (h as nat, Some(r@)),
            ),
            Some((h, None)) => sentence_heads(*sentence)[slot as int] == Some(
                (h as nat, None::<Seq<char>>),
            ),
            None => sentence_heads(*sentence)[slot as int] is None,
        },
{
    sentence.dep_graph().head(slot).map(|t| (t.head(), t.relation().map(str::to_owned)))
}

/// The number of nodes that a graph can hold, the root included: nodes are
/// indexed by `u32`, and the last index is kept in reserve.
pub const NODE_LIMIT: usize = 0xffff_ffff;

/// The forms, together with a root, are few enough for one graph.
pub open spec fn fits_a_graph(forms: Seq<String>) -> bool {
    forms.len() < NODE_LIMIT
}

/// Collecting `Token::new` of each form into a `Sentence`: a root node
/// followed by one token per form that holds the form only, and no arc.
/// Adding a node panics once the graph holds `NODE_LIMIT` nodes, so the
/// forms must leave room for the root.
#[verifier::external_body]
fn blank_sentence(forms: &Vec<String>) -> (sentence: Sentence)
    requires
        forms@.len() < u32::MAX,
    ensures
        sentence_tokens(sentence) == blank_nodes(forms@),
        sentence_heads(sentence) == Seq::new(
            forms@.len() + 1,
            |i: int| None::<(nat, Option<Seq<char>>)>,
        ),
{
    forms.iter().cloned().map(udgraph::token::Token::new).collect()
}

/// A root node followed by one unannotated token per form.
pub open spec fn blank_nodes(forms: Seq<String>) -> Seq<Option<TokenModel>> {
    Seq::new(
        forms.len() + 1,
        |i: int|
            if i == 0 {
                None
            } else {
                Some(blank(forms[i - 1]@))
            },
    )
}

/// The graph has the shape of a sentence: a root node first, tokens after
/// it, and a label on every arc.
pub open spec fn is_sentence_shaped(sentence: Sentence) -> bool {
    let tokens = sentence_tokens(sentence);
    let heads = sentence_heads(sentence);
    &&& tokens.len() >= 1
    &&& tokens[0] is None
    &&& forall|i: int| 1 <= i < tokens.len() ==> #[trigger] tokens[i] is Some
    &&& forall|i: int|
        1 <= i < heads.len() ==> (#[trigger] heads[i] matches Some(arc) ==> arc.1 is Some)
}

/// The token in `slot` of a sentence-shaped graph, with its arc.
pub open spec fn node_model(sentence: Sentence, slot: int) -> TokenModel {
    let lexical = sentence_tokens(sentence)[slot]->Some_0;
    TokenModel {
        arc: match sentence_heads(sentence)[slot] {
            Some((head, Some(relation))) => Some(crate::store::ArcModel { head, relation }),
            _ => None,
        },
        ..lexical
    }
}

/// The tokens of a sentence-shaped graph, the root left out.
pub open spec fn graph_tokens(sentence: Sentence) -> Seq<TokenModel> {
    Seq::new(
        (sentence_tokens(sentence).len() - 1) as nat,
        |i: int| node_model(sentence, i + 1),
    )
}

/// One blank graph per list of forms, for a tokenizer and a tagger to
/// work on; nothing where some list is too long for a graph.
pub fn skeletons(sentences: &Vec<Vec<String>>) -> (made: Option<Vec<Sentence>>)
    ensures
        made is Some <==> forall|i: int|
            0 <= i < sentences@.len() ==> fits_a_graph(#[trigger] sentences@[i]@),
        made matches Some(graphs) ==> {
            &&& graphs@.len() == sentences@.len()
            &&& forall|i: int|
                0 <= i < graphs@.len() ==> sentence_tokens(#[trigger] graphs@[i]) == blank_nodes(
                    sentences@[i]@,
                )
            &&& forall|i: int|
                0 <= i < graphs@.len() ==> is_sentence_shaped(#[trigger] graphs@[i])
                    && graph_tokens(graphs@[i]) == crate::store::blanks(sentences@[i]@)
        },
{
    let mut graphs: Vec<Sentence> = Vec::new();
    let mut i: usize = 0;
    while i < sentences.len()
        invariant
            i <= sentences@.len(),
            graphs@.len() == i,
            forall|k: int| 0 <= k < i ==> fits_a_graph(#[trigger] sentences@[k]@),
            forall|k: int|
                0 <= k < i ==> sentence_tokens(#[trigger] graphs@[k]) == blank_nodes(
                    sentences@[k]@,
                ),
            forall|k: int|
                0 <= k < i ==> is_sentence_shaped(#[trigger] graphs@[k]) && graph_tokens(
                    graphs@[k],
                ) == crate::store::blanks(sentences@[k]@),
        decreases sentences@.len() - i,
    {
        if sentences[i].len() >= NODE_LIMIT {
            assert(!fits_a_graph(sentences@[i as int]@));
            return None;
        }
        let graph = blank_sentence(&sentences[i]);
        assert(graph_tokens(graph) =~= crate::store::blanks(sentences@[i as int]@));
        graphs.push(graph);
        i += 1;
    }
    Some(graphs)
}

/// The forms and the predictions that a graph holds, token by token;
/// nothing where the graph is not sentence-shaped.
pub fn read_sentence(sentence: &Sentence) -> (read: Option<(Vec<String>, Vec<TokenAnnotation>)>)
    ensures
        match read {
            Some((forms, notes)) => {
                &&& is_sentence_shaped(*sentence)
                &&& forms@.len() < usize::MAX
                &&& forms@.len() == graph_tokens(*sentence).len()
                &&& notes@.len() == graph_tokens(*sentence).len()
                &&& forall|i: int|
                    0 <= i < forms@.len() ==> (#[trigger] forms@[i])@ == graph_tokens(
                        *sentence,
                    )[i].form
                &&& forall|i: int|
                    0 <= i < notes@.len() ==> (#[trigger] notes@[i]).over(
                        blank(forms@[i]@),
                    ) == graph_tokens(*sentence)[i]
            },
            None => !is_sentence_shaped(*sentence),
        },
{
    let n = node_count(sentence);
    if n == 0 {
        return None;
    }
    if node_token(sentence, 0).is_some() {
        return None;
    }
    let mut forms: Vec<String> = Vec::new();
    let mut notes: Vec<TokenAnnotation> = Vec::new();
    let mut slot: usize = 1;
    while slot < n
        invariant
            1 <= slot <= n,
            n == sentence_tokens(*sentence).len(),
            n == sentence_heads(*sentence).len(),
            sentence_tokens(*sentence)[0] is None,
            forms@.len() == slot - 1,
            notes@.len() == slot - 1,
            forall|i: int| 1 <= i < slot ==> #[trigger] sentence_tokens(*sentence)[i] is Some,
            forall|i: int|
                1 <= i < slot ==> (#[trigger] sentence_heads(*sentence)[i] matches Some(arc)
                    ==> arc.1 is Some),
            forall|i: int|
                0 <= i < forms@.len() ==> (#[trigger] forms@[i])@ == node_model(
                    *sentence,
                    i + 1,
                ).form,
            forall|i: int|
                0 <= i < notes@.len() ==> (#[trigger] notes@[i]).over(blank(forms@[i]@))
                    == node_model(*sentence, i + 1),
        decreases n - slot,
    {
        let token = match node_token(sentence, slot) {
            Some(token) => token,
            None => {
                return None;
            },
        };
        let arc = match node_head(sentence, slot) {
            Some((head, Some(relation))) => Some(DepArc { head, relation }),
            Some((_, None)) => {
                return None;
            },
            None => None,
        };
        let Token { form, features, upos, xpos } = token;
        let note = TokenAnnotation { features, upos, xpos, arc };
        assert(note.over(blank(form@)) == node_model(*sentence, slot as int));
        forms.push(form);
        notes.push(note);
        slot += 1;
    }
    Some((forms, notes))
}

impl TokenGraph {
    /// The store of a sentence-shaped graph whose heads are nodes of the
    /// graph, with the given pieces; nothing for any other graph.
    pub fn from_sentence(sentence: &Sentence, pieces: &Vec<i64>) -> (graph: Option<TokenGraph>)
        ensures
            match graph {
                Some(g) => is_sentence_shaped(*sentence) && tokens_are_sound(
                    graph_tokens(*sentence),
                ) && g@ == graph_tokens(*sentence) && g.pieces() == pieces@,
                None => !(is_sentence_shaped(*sentence) && tokens_are_sound(
                    graph_tokens(*sentence),
                )),
            },
    {
        match read_sentence(sentence) {
            Some((forms, notes)) => {
                let bare = TokenGraph::from_forms(&forms, pieces);
                if bare.accepts(&notes) {
                    let graph = bare.annotated(&notes);
                    assert(graph@ =~= graph_tokens(*sentence));
                    proof {
                        let tokens = graph_tokens(*sentence);
                        assert forall|i: int| 0 <= i < tokens.len() implies token_is_sound(
                            #[trigger] tokens[i],
                            tokens.len(),
                        ) by {
                            assert(token_is_sound(
                                notes@[i].over(blank(Seq::empty())),
                                notes@.len(),
                            ));
                            assert(notes@[i].over(blank(forms@[i]@)) == tokens[i]);
                        }
                    }
                    Some(graph)
                } else {
                    proof {
                        if tokens_are_sound(graph_tokens(*sentence)) {
                            assert forall|i: int| 0 <= i < notes@.len() implies token_is_sound(
                                (#[trigger] notes@[i]).over(blank(Seq::empty())),
                                notes@.len(),
                            ) by {
                                let tokens = graph_tokens(*sentence);
                                assert(notes@[i].over(blank(forms@[i]@)) == tokens[i]);
                                assert(token_is_sound(tokens[i], tokens.len()));
                            }
                        }
                    }
                    None
                }
            },
            None => None,
        }
    }
}

/// The predictions in `notes` are those that the graph holds.
pub open spec fn notes_of(sentence: Sentence, notes: Seq<TokenAnnotation>) -> bool {
    &&& notes.len() == graph_tokens(sentence).len()
    &&& forall|i: int|
        0 <= i < notes.len() ==> (#[trigger] notes[i]).over(
            blank(graph_tokens(sentence)[i].form),
        ) == graph_tokens(sentence)[i]
}

/// The predictions that the graphs of a tagged batch hold, as an outcome
/// for the run; an error where one of them is not sentence-shaped.
pub fn read_batch(graphs: &Vec<Sentence>) -> (outcome: Result<Vec<Vec<TokenAnnotation>>, String>)
    ensures
        match outcome {
            Ok(notes) => notes@.len() == graphs@.len() && forall|j: int|
                0 <= j < graphs@.len() ==> is_sentence_shaped(#[trigger] graphs@[j]) && notes_of(
                    graphs@[j],
                    notes@[j]@,
                ),
            Err(cause) => cause@ == "a tagged sentence is malformed"@ && exists|j: int|
                0 <= j < graphs@.len() && !is_sentence_shaped(#[trigger] graphs@[j]),
        },
{
    let mut all: Vec<Vec<TokenAnnotation>> = Vec::new();
    let mut j: usize = 0;
    while j < graphs.len()
        invariant
            j <= graphs@.len(),
            all@.len() == j,
            forall|k: int|
                0 <= k < j ==> is_sentence_shaped(#[trigger] graphs@[k]) && notes_of(
                    graphs@[k],
                    all@[k]@,
                ),
        decreases graphs@.len() - j,
    {
        match read_sentence(&graphs[j]) {
            Some((forms, notes)) => {
                proof {
                    let tokens = graph_tokens(graphs@[j as int]);
                    assert forall|i: int| 0 <= i < notes@.len() implies (#[trigger] notes@[i]).over(
                        blank(tokens[i].form),
                    ) == tokens[i] by {
                        assert(forms@[i]@ == tokens[i].form);
                    }
                }
                all.push(notes);
            },
            None => {
                assert(!is_sentence_shaped(graphs@[j as int]));
                return Err(String::from_str("a tagged sentence is malformed"));
            },
        }
        j += 1;
    }
    Ok(all)
}

} // verus!
