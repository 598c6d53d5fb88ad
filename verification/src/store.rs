//! The token/graph store behind every view: a hidden root in slot 0, one
//! token per later slot, and at most one incoming dependency arc per token.

use vstd::prelude::*;

verus! {

/// What a dependency arc says: the head's slot (0 is the root) and the label.
pub struct ArcModel {
    pub head: nat,
    pub relation: Seq<char>,
}

/// What the store holds for one token.
pub struct TokenModel {
    pub form: Seq<char>,
    pub features: Seq<(Seq<char>, Seq<char>)>,
    pub upos: Option<Seq<char>>,
    pub xpos: Option<Seq<char>>,
    pub arc: Option<ArcModel>,
}

/// One morphological feature.
pub struct Feature {
    pub key: String,
    pub value: String,
}

/// An incoming dependency arc; `head` is a slot of the store, 0 for the root.
pub struct DepArc {
    pub head: usize,
    pub relation: String,
}

/// The lexical part of a slot.
pub struct Token {
    pub form: String,
    pub features: Vec<Feature>,
    pub upos: Option<String>,
    pub xpos: Option<String>,
}

/// A slot of the store.
pub enum Node {
    Root,
    Token(Token),
}

/// The predictions for one token.
pub struct TokenAnnotation {
    pub features: Vec<Feature>,
    pub upos: Option<String>,
    pub xpos: Option<String>,
    pub arc: Option<DepArc>,
}

impl View for Feature {
    type V = (Seq<char>, Seq<char>);

    open spec fn view(&self) -> (Seq<char>, Seq<char>) {
        (self.key@, self.value@)
    }
}

impl View for DepArc {
    type V = ArcModel;

    open spec fn view(&self) -> ArcModel {
        ArcModel { head: self.head as nat, relation: self.relation@ }
    }
}

/// What an optional text says.
pub open spec fn text_of(text: Option<String>) -> Option<Seq<char>> {
    match text {
        Some(s) => Some(s@),
        None => None,
    }
}

/// What an optional arc says.
pub open spec fn arc_of(arc: Option<DepArc>) -> Option<ArcModel> {
    match arc {
        Some(a) => Some(a@),
        None => None,
    }
}

/// The features as pairs of key and value, in the order in which they are
/// held.
pub open spec fn features_of(features: Seq<Feature>) -> Seq<(Seq<char>, Seq<char>)> {
    Seq::new(features.len(), |i: int| features[i]@)
}

/// A token as it stands before any prediction: the form and nothing else.
pub open spec fn blank(form: Seq<char>) -> TokenModel {
    TokenModel { form, features: Seq::empty(), upos: None, xpos: None, arc: None }
}

/// A sentence of the given forms before any prediction.
pub open spec fn blanks(forms: Seq<String>) -> Seq<TokenModel> {
    Seq::new(forms.len(), |i: int| blank(forms[i]@))
}

impl TokenAnnotation {
    /// The token that results when these predictions are laid over `token`.
    pub open spec fn over(&self, token: TokenModel) -> TokenModel {
        TokenModel {
            form: token.form,
            features: features_of(self.features@),
            upos: text_of(self.upos),
            xpos: text_of(self.xpos),
            arc: arc_of(self.arc),
        }
    }
}

/// No two features have the same key.
pub open spec fn distinct_keys(features: Seq<(Seq<char>, Seq<char>)>) -> bool {
    forall|i: int, j: int|
        0 <= i < j < features.len() ==> (#[trigger] features[i]).0 != (#[trigger] features[j]).0
}

/// A token is sound in a sentence of `len` tokens when its head, if it has
/// one, is the root (0) or the slot of a token, and its feature keys are
/// distinct.
pub open spec fn token_is_sound(token: TokenModel, len: nat) -> bool {
    &&& token.arc matches Some(a) ==> a.head <= len
    &&& distinct_keys(token.features)
}

/// Every token of the sentence is sound in it.
pub open spec fn tokens_are_sound(tokens: Seq<TokenModel>) -> bool {
    forall|i: int| 0 <= i < tokens.len() ==> token_is_sound(#[trigger] tokens[i], tokens.len())
}

/// Predictions fit a sentence of `len` tokens when there is one per token
/// and each leaves its token sound.
pub open spec fn notes_fit(len: nat, notes: Seq<TokenAnnotation>) -> bool {
    &&& notes.len() == len
    &&& forall|i: int|
        0 <= i < notes.len() ==> token_is_sound(
            (#[trigger] notes[i]).over(blank(Seq::empty())),
            len,
        )
}

/// The tokens with the predictions laid over them, one by one.
pub open spec fn annotated_tokens(tokens: Seq<TokenModel>, notes: Seq<TokenAnnotation>) -> Seq<
    TokenModel,
> {
    Seq::new(tokens.len(), |i: int| notes[i].over(tokens[i]))
}

impl Token {
    /// What the token says, together with the given arc.
    pub open spec fn lexical(&self, arc: Option<DepArc>) -> TokenModel {
        TokenModel {
            form: self.form@,
            features: features_of(self.features@),
            upos: text_of(self.upos),
            xpos: text_of(self.xpos),
            arc: arc_of(arc),
        }
    }
}

/// A copy of an optional text.
fn copy_text(text: &Option<String>) -> (copy: Option<String>)
    ensures
        copy == *text,
{
    match text {
        Some(s) => Some(s.clone()),
        None => None,
    }
}

/// A copy of an optional arc.
fn copy_arc(arc: &Option<DepArc>) -> (copy: Option<DepArc>)
    ensures
        copy == *arc,
{
    match arc {
        Some(a) => Some(DepArc { head: a.head, relation: a.relation.clone() }),
        None => None,
    }
}

/// A copy of a list of features.
fn copy_features(features: &Vec<Feature>) -> (copy: Vec<Feature>)
    ensures
        copy@ == features@,
{
    let mut copy: Vec<Feature> = Vec::new();
    let mut i: usize = 0;
    while i < features.len()
        invariant
            i <= features.len(),
            copy@ == features@.take(i as int),
        decreases features.len() - i,
    {
        let f = &features[i];
        copy.push(Feature { key: f.key.clone(), value: f.value.clone() });
        i += 1;
        assert(copy@ =~= features@.take(i as int));
    }
    assert(features@.take(i as int) =~= features@);
    copy
}

/// One sentence: slot 0 is the root, slots `1..len()` hold the tokens.
pub struct TokenGraph {
    nodes: Vec<Node>,
    arcs: Vec<Option<DepArc>>,
    pieces: Vec<i64>,
}

impl View for TokenGraph {
    type V = Seq<TokenModel>;

    /// The tokens in sentence order; the root is not among them.
    closed spec fn view(&self) -> Seq<TokenModel> {
        Seq::new(
            (self.nodes@.len() - 1) as nat,
            |i: int|
                match self.nodes@[i + 1] {
                    Node::Token(t) => t.lexical(self.arcs@[i + 1]),
                    Node::Root => blank(Seq::empty()),
                },
        )
    }
}

impl TokenGraph {
    #[verifier::type_invariant]
    closed spec fn well_formed(&self) -> bool {
        &&& self.nodes@.len() >= 1
        &&& self.nodes@[0] is Root
        &&& forall|i: int| 1 <= i < self.nodes@.len() ==> #[trigger] self.nodes@[i] is Token
        &&& self.arcs@.len() == self.nodes@.len()
        &&& self.arcs@[0] is None
        &&& forall|i: int|
            0 <= i < self.arcs@.len() ==> (#[trigger] self.arcs@[i] matches Some(a) ==> a.head
                < self.nodes@.len())
        &&& forall|i: int|
            1 <= i < self.nodes@.len() ==> distinct_keys(
                features_of((#[trigger] self.nodes@[i])->Token_0.features@),
            )
    }

    /// The subword pieces of the sentence.
    pub closed spec fn pieces(&self) -> Seq<i64> {
        self.pieces@
    }

    /// A sentence of the given forms with no annotation yet.
    pub fn from_forms(forms: &Vec<String>, pieces: &Vec<i64>) -> (graph: TokenGraph)
        requires
            forms@.len() < usize::MAX,
        ensures
            graph@ == blanks(forms@),
            graph.pieces() == pieces@,
    {
        let mut nodes: Vec<Node> = Vec::new();
        let mut arcs: Vec<Option<DepArc>> = Vec::new();
        nodes.push(Node::Root);
        arcs.push(None);
        let mut i: usize = 0;
        while i < forms.len()
            invariant
                i <= forms.len(),
                nodes@.len() == i + 1,
                arcs@.len() == i + 1,
                nodes@[0] is Root,
                forall|j: int| 0 <= j < arcs@.len() ==> #[trigger] arcs@[j] is None,
                forall|j: int|
                    1 <= j < nodes@.len() ==> (#[trigger] nodes@[j] matches Node::Token(t)
                        && t.form == forms@[j - 1] && t.features@.len() == 0 && t.upos is None
                        && t.xpos is None),
            decreases forms.len() - i,
        {
            let token = Token {
                form: forms[i].clone(),
                features: Vec::new(),
                upos: None,
                xpos: None,
            };
            nodes.push(Node::Token(token));
            arcs.push(None);
            i += 1;
        }
        let pieces = copy_pieces(pieces);
        let graph = TokenGraph { nodes, arcs, pieces };
        assert(graph@ =~= blanks(forms@)) by {
            assert forall|k: int| 0 <= k < forms@.len() implies graph@[k] == blank(forms@[k]@) by {
                assert(graph.nodes@[k + 1] is Token);
                assert(graph.arcs@[k + 1] is None);
                let t = graph.nodes@[k + 1]->Token_0;
                assert(features_of(t.features@) =~= Seq::empty());
            }
        }
        graph
    }

    /// The number of slots, the root included. Every token of a store is
    /// sound in it.
    pub fn len(&self) -> (n: usize)
        ensures
            n == self@.len() + 1,
            tokens_are_sound(self@),
    {
        proof {
            use_type_invariant(self);
            assert forall|i: int| 0 <= i < self@.len() implies token_is_sound(
                #[trigger] self@[i],
                self@.len(),
            ) by {
                assert(self.nodes@[i + 1] is Token);
                assert(self.arcs@[i + 1] matches Some(a) ==> a.head < self.nodes@.len());
            }
        }
        self.nodes.len()
    }

    /// The number of subword pieces.
    pub fn piece_count(&self) -> (n: usize)
        ensures
            n == self.pieces().len(),
    {
        self.pieces.len()
    }

    /// The token in `slot`.
    pub fn token(&self, slot: usize) -> (token: &Token)
        requires
            1 <= slot <= self@.len(),
        ensures
            token.lexical(None) == (TokenModel { arc: None, ..self@[slot - 1] }),
            distinct_keys(self@[slot - 1].features),
    {
        proof {
            use_type_invariant(self);
            assert(self.nodes@[slot as int] is Token);
        }
        match &self.nodes[slot] {
            Node::Token(t) => t,
            Node::Root => vstd::pervasive::unreached(),
        }
    }

    /// The incoming arc of the token in `slot`, if one is recorded.
    pub fn head(&self, slot: usize) -> (arc: Option<&DepArc>)
        requires
            1 <= slot <= self@.len(),
        ensures
            match arc {
                Some(a) => self@[slot - 1].arc == Some(a@) && a.head <= self@.len(),
                None => self@[slot - 1].arc is None,
            },
    {
        proof {
            use_type_invariant(self);
            assert(self.nodes@[slot as int] is Token);
        }
        match &self.arcs[slot] {
            Some(a) => Some(a),
            None => None,
        }
    }

    /// Whether `notes` holds one prediction per token with every head in
    /// the sentence.
    pub fn accepts(&self, notes: &Vec<TokenAnnotation>) -> (fit: bool)
        ensures
            fit == notes_fit(self@.len(), notes@),
    {
        proof {
            use_type_invariant(self);
        }
        let len = self.nodes.len() - 1;
        if notes.len() != len {
            return false;
        }
        let mut i: usize = 0;
        while i < notes.len()
            invariant
                i <= notes.len(),
                notes.len() == len,
                forall|j: int|
                    0 <= j < i ==> token_is_sound(
                        (#[trigger] notes@[j]).over(blank(Seq::empty())),
                        len as nat,
                    ),
            decreases notes.len() - i,
        {
            match &notes[i].arc {
                Some(a) => {
                    if a.head > len {
                        return false;
                    }
                },
                None => {},
            }
            if !keys_are_distinct(&notes[i].features) {
                return false;
            }
            i += 1;
        }
        true
    }

    /// The same sentence with the predictions laid over its tokens.
    pub fn annotated(&self, notes: &Vec<TokenAnnotation>) -> (graph: TokenGraph)
        requires
            notes_fit(self@.len(), notes@),
        ensures
            graph@ == annotated_tokens(self@, notes@),
            graph.pieces() == self.pieces(),
    {
        proof {
            use_type_invariant(self);
        }
        let mut nodes: Vec<Node> = Vec::new();
        let mut arcs: Vec<Option<DepArc>> = Vec::new();
        nodes.push(Node::Root);
        arcs.push(None);
        let n = self.nodes.len();
        let mut slot: usize = 1;
        while slot < n
            invariant
                1 <= slot <= n,
                n == self.nodes@.len(),
                self.well_formed(),
                notes_fit(self@.len(), notes@),
                nodes@.len() == slot,
                arcs@.len() == slot,
                nodes@[0] is Root,
                arcs@[0] is None,
                forall|j: int| 1 <= j < slot ==> #[trigger] nodes@[j] is Token,
                forall|j: int|
                    0 <= j < slot ==> (#[trigger] arcs@[j] matches Some(a) ==> a.head < n),
                forall|j: int|
                    1 <= j < slot ==> (#[trigger] nodes@[j])->Token_0.lexical(arcs@[j])
                        == notes@[j - 1].over(self@[j - 1]),
                forall|j: int|
                    1 <= j < slot ==> distinct_keys(
                        features_of((#[trigger] nodes@[j])->Token_0.features@),
                    ),
            decreases n - slot,
        {
            let note = &notes[slot - 1];
            let form = match &self.nodes[slot] {
                Node::Token(t) => t.form.clone(),
                Node::Root => vstd::pervasive::unreached(),
            };
            let token = Token {
                form,
                features: copy_features(&note.features),
                upos: copy_text(&note.upos),
                xpos: copy_text(&note.xpos),
            };
            let arc = copy_arc(&note.arc);
            proof {
                assert(token_is_sound(notes@[slot - 1].over(blank(Seq::empty())), self@.len()));
                assert(token.lexical(arc) == note.over(self@[slot - 1]));
            }
            nodes.push(Node::Token(token));
            arcs.push(arc);
            slot += 1;
        }
        let pieces = copy_pieces(&self.pieces);
        let graph = TokenGraph { nodes, arcs, pieces };
        assert(graph@ =~= annotated_tokens(self@, notes@));
        graph
    }
}

/// Whether no two of the features have the same key.
pub fn keys_are_distinct(features: &Vec<Feature>) -> (distinct: bool)
    ensures
        distinct == distinct_keys(features_of(features@)),
{
    let mut j: usize = 0;
    while j < features.len()
        invariant
            j <= features@.len(),
            forall|a: int, b: int|
                0 <= a < b < j ==> (#[trigger] features@[a]).key@ != (#[trigger] features@[b]).key@,
        decreases features@.len() - j,
    {
        let mut i: usize = 0;
        while i < j
            invariant
                i <= j < features@.len(),
                forall|a: int| 0 <= a < i ==> (#[trigger] features@[a]).key@ != features@[j as int].key@,
            decreases j - i,
        {
            if features[i].key == features[j].key {
                proof {
                    let model = features_of(features@);
                    assert(model[i as int].0 == model[j as int].0);
                }
                return false;
            }
            i += 1;
        }
        j += 1;
    }
    proof {
        let model = features_of(features@);
        assert forall|a: int, b: int| 0 <= a < b < model.len() implies (#[trigger] model[a]).0 != (
        #[trigger] model[b]).0 by {
            assert(features@[a].key@ != features@[b].key@);
        }
    }
    true
}

/// A copy of a list of pieces.
fn copy_pieces(pieces: &Vec<i64>) -> (copy: Vec<i64>)
    ensures
        copy@ == pieces@,
{
    let mut copy: Vec<i64> = Vec::new();
    let mut i: usize = 0;
    while i < pieces.len()
        invariant
            i <= pieces.len(),
            copy@ == pieces@.take(i as int),
        decreases pieces.len() - i,
    {
        copy.push(pieces[i]);
        i += 1;
        assert(copy@ =~= pieces@.take(i as int));
    }
    assert(pieces@.take(i as int) =~= pieces@);
    copy
}

} // verus!
