//! The declarations that are rewritten, as plain values.
//!
//! A type is held token by token. A token is the text of one identifier,
//! keyword, lifetime, literal, bracket or punctuation mark; `::` and `->` are
//! one token each, and each `&`, `<` and `>` is a token of its own. Everything
//! that is only carried along (attributes, bodies, bounds) is held as text.

use crate::text::{join, join_text, lemma_take_push, lemma_views_push, views};
use vstd::prelude::*;

verus! {

/// A type, token by token.
#[derive(Clone, Debug, PartialEq, Eq)]
pub struct TypeExpr {
    pub tokens: Vec<String>,
}

impl View for TypeExpr {
    type V = Seq<Seq<char>>;

    open spec fn view(&self) -> Seq<Seq<char>> {
        views(self.tokens@)
    }
}

/// The text of a type: its tokens with one space between each two.
pub open spec fn type_text(tokens: Seq<Seq<char>>) -> Seq<char> {
    join(tokens, " "@)
}

/// Who may name a declaration.
#[derive(Clone, Debug, PartialEq, Eq)]
pub enum Visibility {
    /// No visibility is written.
    Inherited,
    /// `pub(..)`, with what stands between the parentheses.
    Restricted(String),
    /// `pub`.
    Public,
}

pub enum VisibilityView {
    Inherited,
    Restricted(Seq<char>),
    Public,
}

impl View for Visibility {
    type V = VisibilityView;

    open spec fn view(&self) -> VisibilityView {
        match self {
            Visibility::Inherited => VisibilityView::Inherited,
            Visibility::Restricted(scope) => VisibilityView::Restricted(scope@),
            Visibility::Public => VisibilityView::Public,
        }
    }
}

/// The text of a visibility, ending in a space where anything is written.
pub open spec fn visibility_text(vis: VisibilityView) -> Seq<char> {
    match vis {
        VisibilityView::Inherited => Seq::empty(),
        VisibilityView::Restricted(scope) => "pub("@ + scope + ") "@,
        VisibilityView::Public => "pub "@,
    }
}

/// What a generic parameter stands for.
#[derive(Clone, Copy, Debug, PartialEq, Eq, Structural)]
pub enum GenericKind {
    Type,
    Lifetime,
    Const,
}

/// One generic parameter: its name as it occurs in types (a lifetime with its
/// apostrophe) and its declaration with bounds, as text.
#[derive(Clone, Debug, PartialEq, Eq)]
pub struct GenericParam {
    pub kind: GenericKind,
    pub name: String,
    pub text: String,
}

pub struct GenericParamView {
    pub kind: GenericKind,
    pub name: Seq<char>,
    pub text: Seq<char>,
}

impl View for GenericParam {
    type V = GenericParamView;

    open spec fn view(&self) -> GenericParamView {
        GenericParamView { kind: self.kind, name: self.name@, text: self.text@ }
    }
}

/// The text of a list of generic parameters: nothing for an empty list, else
/// the declarations between angle brackets.
pub open spec fn generics_text(generics: Seq<GenericParamView>) -> Seq<char> {
    if generics.len() == 0 {
        Seq::empty()
    } else {
        "<"@ + join(Seq::new(generics.len(), |i: int| generics[i].text), ", "@) + ">"@
    }
}

/// The pattern of a parameter.
#[derive(Clone, Debug, PartialEq, Eq)]
pub enum Pattern {
    /// A plain identifier.
    Ident(String),
    /// A pattern that takes the argument apart, as text.
    Destructuring(String),
    /// `_`.
    Wildcard,
}

pub enum PatternView {
    Ident(Seq<char>),
    Destructuring(Seq<char>),
    Wildcard,
}

impl View for Pattern {
    type V = PatternView;

    open spec fn view(&self) -> PatternView {
        match self {
            Pattern::Ident(name) => PatternView::Ident(name@),
            Pattern::Destructuring(text) => PatternView::Destructuring(text@),
            Pattern::Wildcard => PatternView::Wildcard,
        }
    }
}

/// The text of a pattern.
pub open spec fn pattern_text(pattern: PatternView) -> Seq<char> {
    match pattern {
        PatternView::Ident(name) => name,
        PatternView::Destructuring(text) => text,
        PatternView::Wildcard => "_"@,
    }
}

/// A parameter other than the receiver.
#[derive(Clone, Debug, PartialEq, Eq)]
pub struct Parameter {
    pub attrs: String,
    pub pattern: Pattern,
    pub ty: TypeExpr,
}

pub struct ParameterView {
    pub attrs: Seq<char>,
    pub pattern: PatternView,
    pub ty: Seq<Seq<char>>,
}

impl View for Parameter {
    type V = ParameterView;

    open spec fn view(&self) -> ParameterView {
        ParameterView { attrs: self.attrs@, pattern: self.pattern@, ty: self.ty@ }
    }
}

/// The text of a parameter.
pub open spec fn parameter_text(parameter: ParameterView) -> Seq<char> {
    parameter.attrs + " "@ + pattern_text(parameter.pattern) + ": "@ + type_text(parameter.ty)
}

/// A receiver: `self`, borrowed or not.
#[derive(Clone, Debug, PartialEq, Eq)]
pub struct Receiver {
    pub attrs: String,
    /// Whether `&` is written.
    pub reference: bool,
    /// The lifetime after `&`, if one is written.
    pub scope: Option<String>,
    /// Whether `mut` is written.
    pub mutable: bool,
}

pub struct ReceiverView {
    pub attrs: Seq<char>,
    pub reference: bool,
    pub scope: Option<Seq<char>>,
    pub mutable: bool,
}

impl View for Receiver {
    type V = ReceiverView;

    open spec fn view(&self) -> ReceiverView {
        ReceiverView {
            attrs: self.attrs@,
            reference: self.reference,
            scope: match self.scope {
                Some(scope) => Some(scope@),
                None => None,
            },
            mutable: self.mutable,
        }
    }
}

/// The text of what stands before `self` in a receiver.
pub open spec fn borrow_text(receiver: ReceiverView) -> Seq<char> {
    if !receiver.reference {
        Seq::empty()
    } else {
        match receiver.scope {
            Some(scope) => "&"@ + scope + " "@,
            None => "&"@,
        }
    }
}

/// The text of a receiver.
pub open spec fn receiver_text(receiver: ReceiverView) -> Seq<char> {
    receiver.attrs + " "@ + borrow_text(receiver) + (if receiver.mutable {
        "mut "@
    } else {
        Seq::empty()
    }) + "self"@
}

/// One input of a signature.
#[derive(Clone, Debug, PartialEq, Eq)]
pub enum Input {
    Receiver(Receiver),
    Typed(Parameter),
}

pub enum InputView {
    Receiver(ReceiverView),
    Typed(ParameterView),
}

impl View for Input {
    type V = InputView;

    open spec fn view(&self) -> InputView {
        match self {
            Input::Receiver(receiver) => InputView::Receiver(receiver@),
            Input::Typed(parameter) => InputView::Typed(parameter@),
        }
    }
}

/// The signature of a method.
#[derive(Clone, Debug, PartialEq, Eq)]
pub struct Signature {
    pub asyncness: bool,
    pub name: String,
    pub generics: Vec<GenericParam>,
    pub inputs: Vec<Input>,
    /// The return type; `None` where none is written.
    pub output: Option<TypeExpr>,
}

pub struct SignatureView {
    pub asyncness: bool,
    pub name: Seq<char>,
    pub generics: Seq<GenericParamView>,
    pub inputs: Seq<InputView>,
    pub output: Option<Seq<Seq<char>>>,
}

impl View for Signature {
    type V = SignatureView;

    open spec fn view(&self) -> SignatureView {
        SignatureView {
            asyncness: self.asyncness,
            name: self.name@,
            generics: views(self.generics@),
            inputs: views(self.inputs@),
            output: match self.output {
                Some(ty) => Some(ty@),
                None => None,
            },
        }
    }
}

/// A method with its body.
#[derive(Clone, Debug, PartialEq, Eq)]
pub struct Method {
    pub attrs: String,
    pub vis: Visibility,
    pub sig: Signature,
    /// The statements of the body, without the braces around them.
    pub body: String,
}

pub struct MethodView {
    pub attrs: Seq<char>,
    pub vis: VisibilityView,
    pub sig: SignatureView,
    pub body: Seq<char>,
}

impl View for Method {
    type V = MethodView;

    open spec fn view(&self) -> MethodView {
        MethodView { attrs: self.attrs@, vis: self.vis@, sig: self.sig@, body: self.body@ }
    }
}

impl TypeExpr {
    /// The text of the type.
    pub fn render(&self) -> (r: String)
        ensures
            r@ == type_text(self@),
    {
        join_text(&self.tokens, " ")
    }

    /// A copy of the type.
    pub fn copy(&self) -> (r: TypeExpr)
        ensures
            r@ == self@,
    {
        let mut tokens: Vec<String> = Vec::new();
        let mut i: usize = 0;
        while i < self.tokens.len()
            invariant
                i <= self.tokens.len(),
                views(tokens@) == self@.take(i as int),
            decreases self.tokens.len() - i,
        {
            proof {
                lemma_views_push(tokens@, self.tokens@[i as int]);
                lemma_take_push(self@, i as int);
            }
            tokens.push(self.tokens[i].clone());
            i += 1;
        }
        assert(self@.take(self.tokens.len() as int) =~= self@);
        TypeExpr { tokens }
    }
}

impl Visibility {
    /// The text of the visibility.
    pub fn render(&self) -> (r: String)
        ensures
            r@ == visibility_text(self@),
    {
        match self {
            Visibility::Inherited => String::new(),
            Visibility::Restricted(scope) => {
                let mut out = "pub(".to_owned();
                out.append(scope.as_str());
                out.append(") ");
                out
            },
            Visibility::Public => "pub ".to_owned(),
        }
    }

    /// A copy of the visibility.
    pub fn copy(&self) -> (r: Visibility)
        ensures
            r@ == self@,
    {
        match self {
            Visibility::Inherited => Visibility::Inherited,
            Visibility::Restricted(scope) => Visibility::Restricted(scope.clone()),
            Visibility::Public => Visibility::Public,
        }
    }
}

impl GenericParam {
    /// A copy of the parameter.
    pub fn copy(&self) -> (r: GenericParam)
        ensures
            r@ == self@,
    {
        GenericParam { kind: self.kind, name: self.name.clone(), text: self.text.clone() }
    }
}

/// A copy of a list of generic parameters.
pub fn copy_generics(generics: &Vec<GenericParam>) -> (r: Vec<GenericParam>)
    ensures
        views(r@) == views(generics@),
{
    let mut out: Vec<GenericParam> = Vec::new();
    let mut i: usize = 0;
    while i < generics.len()
        invariant
            i <= generics.len(),
            views(out@) == views(generics@).take(i as int),
        decreases generics.len() - i,
    {
        let item = generics[i].copy();
        proof {
            lemma_views_push(out@, item);
            lemma_take_push(views(generics@), i as int);
        }
        out.push(item);
        i += 1;
    }
    assert(views(generics@).take(generics.len() as int) =~= views(generics@));
    out
}

/// Writes a list of generic parameters.
pub fn render_generics(generics: &Vec<GenericParam>) -> (r: String)
    ensures
        r@ == generics_text(views(generics@)),
{
    if generics.len() == 0 {
        return String::new();
    }
    let ghost spec_texts = Seq::new(generics@.len(), |i: int| views(generics@)[i].text);
    let mut texts: Vec<String> = Vec::new();
    let mut i: usize = 0;
    while i < generics.len()
        invariant
            i <= generics.len(),
            spec_texts == Seq::new(generics@.len(), |i: int| views(generics@)[i].text),
            views(texts@) == spec_texts.take(i as int),
        decreases generics.len() - i,
    {
        proof {
            lemma_views_push(texts@, generics@[i as int].text);
            lemma_take_push(spec_texts, i as int);
        }
        texts.push(generics[i].text.clone());
        i += 1;
    }
    assert(spec_texts.take(generics.len() as int) =~= spec_texts);
    let mut out = "<".to_owned();
    out.append(join_text(&texts, ", ").as_str());
    out.append(">");
    out
}

impl Pattern {
    /// The text of the pattern.
    pub fn render(&self) -> (r: String)
        ensures
            r@ == pattern_text(self@),
    {
        match self {
            Pattern::Ident(name) => name.clone(),
            Pattern::Destructuring(text) => text.clone(),
            Pattern::Wildcard => "_".to_owned(),
        }
    }

    /// A copy of the pattern.
    pub fn copy(&self) -> (r: Pattern)
        ensures
            r@ == self@,
    {
        match self {
            Pattern::Ident(name) => Pattern::Ident(name.clone()),
            Pattern::Destructuring(text) => Pattern::Destructuring(text.clone()),
            Pattern::Wildcard => Pattern::Wildcard,
        }
    }
}

impl Parameter {
    /// The text of the parameter.
    pub fn render(&self) -> (r: String)
        ensures
            r@ == parameter_text(self@),
    {
        let mut out = self.attrs.clone();
        out.append(" ");
        out.append(self.pattern.render().as_str());
        out.append(": ");
        out.append(self.ty.render().as_str());
        out
    }
}

impl Receiver {
    /// The text of the receiver.
    pub fn render(&self) -> (r: String)
        ensures
            r@ == receiver_text(self@),
    {
        let mut out = self.attrs.clone();
        out.append(" ");
        let mut borrow = String::new();
        if self.reference {
            borrow.append("&");
            match &self.scope {
                Some(scope) => {
                    borrow.append(scope.as_str());
                    borrow.append(" ");
                },
                None => {},
            }
        }
        out.append(borrow.as_str());
        let mutability = if self.mutable {
            "mut ".to_owned()
        } else {
            String::new()
        };
        out.append(mutability.as_str());
        out.append("self");
        out
    }

    /// A copy of the receiver.
    pub fn copy(&self) -> (r: Receiver)
        ensures
            r@ == self@,
    {
        Receiver {
            attrs: self.attrs.clone(),
            reference: self.reference,
            scope: match &self.scope {
                Some(scope) => Some(scope.clone()),
                None => None,
            },
            mutable: self.mutable,
        }
    }
}

} // verus!
