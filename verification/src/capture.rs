//! What a signature says of a call: the receiver, the parameters under flat
//! names, and how each argument is kept once the call is over.

use crate::error::RewriteError;
use crate::syntax::{
    Input, InputView, Parameter, ParameterView, Pattern, PatternView, Signature, SignatureView,
    TypeExpr, pattern_text,
};
use crate::text::{
    decimal, decimal_text, lemma_decimal_injective, lemma_take_push, lemma_views_push, views,
};
use vstd::prelude::*;

verus! {

/// How a method takes `self`.
#[derive(Clone, Copy, Debug, PartialEq, Eq, Structural)]
pub enum ReceiverKind {
    /// The method has no receiver.
    Static,
    /// `&self`.
    ByReference,
    /// `&mut self`.
    ByMutableReference,
}

/// A parameter as it is recorded: under its flat name, by a type that borrows
/// nothing from the caller, with the expression that makes such a value.
#[derive(Clone, Debug, PartialEq, Eq)]
pub struct CapturedParameter {
    pub name: String,
    pub ty: TypeExpr,
    pub expr: String,
}

pub struct CapturedParameterView {
    pub name: Seq<char>,
    pub ty: Seq<Seq<char>>,
    pub expr: Seq<char>,
}

impl View for CapturedParameter {
    type V = CapturedParameterView;

    open spec fn view(&self) -> CapturedParameterView {
        CapturedParameterView { name: self.name@, ty: self.ty@, expr: self.expr@ }
    }
}

/// A pattern that was written in a signature, bound again inside the body:
/// `let pattern = name;`.
#[derive(Clone, Debug, PartialEq, Eq)]
pub struct Binding {
    pub pattern: String,
    pub name: String,
}

pub struct BindingView {
    pub pattern: Seq<char>,
    pub name: Seq<char>,
}

impl View for Binding {
    type V = BindingView;

    open spec fn view(&self) -> BindingView {
        BindingView { pattern: self.pattern@, name: self.name@ }
    }
}

/// What the rewriting needs to know of a signature.
#[derive(Clone, Debug, PartialEq, Eq)]
pub struct Analysis {
    pub receiver: ReceiverKind,
    /// The parameters other than the receiver, each under its flat name.
    pub parameters: Vec<Parameter>,
    /// One entry for each parameter, in the order of the signature.
    pub captured: Vec<CapturedParameter>,
    /// One entry for each pattern that a flat name replaced, in the order of
    /// the signature.
    pub bindings: Vec<Binding>,
    /// The return type, the unit type where none is written.
    pub output: TypeExpr,
}

pub struct AnalysisView {
    pub receiver: ReceiverKind,
    pub parameters: Seq<ParameterView>,
    pub captured: Seq<CapturedParameterView>,
    pub bindings: Seq<BindingView>,
    pub output: Seq<Seq<char>>,
}

impl View for Analysis {
    type V = AnalysisView;

    open spec fn view(&self) -> AnalysisView {
        AnalysisView {
            receiver: self.receiver,
            parameters: views(self.parameters@),
            captured: views(self.captured@),
            bindings: views(self.bindings@),
            output: self.output@,
        }
    }
}

/// Whether a token is a lifetime.
pub open spec fn is_lifetime(token: Seq<char>) -> bool {
    token.len() > 0 && token[0] == '\''
}

/// Whether a type is a borrowed reference.
pub open spec fn is_reference(ty: Seq<Seq<char>>) -> bool {
    ty.len() > 0 && ty[0] == "&"@
}

/// Where the referent of a reference begins: after `&`, the lifetime if one is
/// written, and `mut` if it is written.
pub open spec fn referent_start(ty: Seq<Seq<char>>) -> int {
    let after_scope: int = if ty.len() > 1 && is_lifetime(ty[1]) {
        2
    } else {
        1
    };
    if ty.len() > after_scope && ty[after_scope] == "mut"@ {
        after_scope + 1
    } else {
        after_scope
    }
}

/// The type that a reference borrows.
pub open spec fn referent(ty: Seq<Seq<char>>) -> Seq<Seq<char>> {
    ty.subrange(referent_start(ty), ty.len() as int)
}

/// Whether a type is a borrowed string slice.
pub open spec fn is_text_slice(ty: Seq<Seq<char>>) -> bool {
    is_reference(ty) && referent(ty) == seq!["str"@]
}

/// The type by which an argument of type `ty` is kept: `String` for a borrowed
/// string slice, the referent for any other reference, `ty` itself otherwise.
pub open spec fn capture_type(ty: Seq<Seq<char>>) -> Seq<Seq<char>> {
    if is_text_slice(ty) {
        seq!["String"@]
    } else if is_reference(ty) {
        referent(ty)
    } else {
        ty
    }
}

/// The expression that makes the kept value from the parameter `name` of type
/// `ty`: the slice turned into a `String`, the referent of any other
/// reference, the parameter itself otherwise.
pub open spec fn capture_expr(name: Seq<char>, ty: Seq<Seq<char>>) -> Seq<char> {
    if is_text_slice(ty) {
        name + ".to_string()"@
    } else if is_reference(ty) {
        "*"@ + name
    } else {
        name
    }
}

/// The flat name of the parameter at `index`.
pub open spec fn positional(index: int) -> Seq<char> {
    "arg"@ + decimal(index as nat)
}

/// The name under which the parameter at `index` is known after the
/// rewriting: its own where its pattern is an identifier, else the flat one.
pub open spec fn capture_name(parameter: ParameterView, index: int) -> Seq<char> {
    match parameter.pattern {
        PatternView::Ident(name) => name,
        _ => positional(index),
    }
}

/// Whether the first input is a receiver.
pub open spec fn has_receiver(sig: SignatureView) -> bool {
    sig.inputs.len() > 0 && sig.inputs[0] is Receiver
}

/// Whether a signature is refused: a receiver stands behind the first input,
/// or the receiver is taken by value.
pub open spec fn malformed(sig: SignatureView) -> bool {
    ||| exists|i: int| 0 < i < sig.inputs.len() && #[trigger] sig.inputs[i] is Receiver
    ||| has_receiver(sig) && !sig.inputs[0]->Receiver_0.reference
}

/// How the method takes `self`.
pub open spec fn receiver_kind(sig: SignatureView) -> ReceiverKind {
    if !has_receiver(sig) {
        ReceiverKind::Static
    } else if sig.inputs[0]->Receiver_0.mutable {
        ReceiverKind::ByMutableReference
    } else {
        ReceiverKind::ByReference
    }
}

/// The parameters other than the receiver.
pub open spec fn typed_inputs(sig: SignatureView) -> Seq<ParameterView> {
    let first: int = if has_receiver(sig) {
        1
    } else {
        0
    };
    Seq::new((sig.inputs.len() - first) as nat, |i: int| sig.inputs[first + i]->Typed_0)
}

/// A parameter under its flat name.
pub open spec fn normalize(parameter: ParameterView, index: int) -> ParameterView {
    ParameterView {
        attrs: parameter.attrs,
        pattern: PatternView::Ident(capture_name(parameter, index)),
        ty: parameter.ty,
    }
}

/// Parameters under their flat names.
pub open spec fn normalized(parameters: Seq<ParameterView>) -> Seq<ParameterView> {
    Seq::new(parameters.len(), |i: int| normalize(parameters[i], i))
}

/// A parameter as it is recorded.
pub open spec fn capture(parameter: ParameterView, index: int) -> CapturedParameterView {
    CapturedParameterView {
        name: capture_name(parameter, index),
        ty: capture_type(parameter.ty),
        expr: capture_expr(capture_name(parameter, index), parameter.ty),
    }
}

/// Parameters as they are recorded.
pub open spec fn captures(parameters: Seq<ParameterView>) -> Seq<CapturedParameterView> {
    Seq::new(parameters.len(), |i: int| capture(parameters[i], i))
}

/// The patterns that flat names replaced, each with its flat name.
pub open spec fn rebindings(parameters: Seq<ParameterView>) -> Seq<BindingView>
    decreases parameters.len(),
{
    if parameters.len() == 0 {
        Seq::empty()
    } else if parameters.last().pattern is Ident {
        rebindings(parameters.drop_last())
    } else {
        rebindings(parameters.drop_last()).push(
            BindingView {
                pattern: pattern_text(parameters.last().pattern),
                name: positional(parameters.len() - 1),
            },
        )
    }
}

/// The return type of a signature.
pub open spec fn output_type(sig: SignatureView) -> Seq<Seq<char>> {
    match sig.output {
        Some(ty) => ty,
        None => seq!["("@, ")"@],
    }
}

/// What the rewriting needs to know of a signature that is not refused.
pub open spec fn analysis(sig: SignatureView) -> AnalysisView {
    AnalysisView {
        receiver: receiver_kind(sig),
        parameters: normalized(typed_inputs(sig)),
        captured: captures(typed_inputs(sig)),
        bindings: rebindings(typed_inputs(sig)),
        output: output_type(sig),
    }
}

/// A reference to `referent`, with the lifetime `scope` where one is written
/// and with `mut` where `mutable` holds.
pub open spec fn reference_to(
    scope: Option<Seq<char>>,
    mutable: bool,
    referent: Seq<Seq<char>>,
) -> Seq<Seq<char>> {
    seq!["&"@] + (match scope {
        Some(lifetime) => seq![lifetime],
        None => Seq::empty(),
    }) + (if mutable {
        seq!["mut"@]
    } else {
        Seq::empty()
    }) + referent
}

/// Whether tokens can stand behind `&`, a lifetime and `mut` as the type that
/// is borrowed: there is a first token, and it is neither a lifetime nor `mut`.
pub open spec fn is_referent(ty: Seq<Seq<char>>) -> bool {
    ty.len() > 0 && !is_lifetime(ty[0]) && ty[0] != "mut"@
}

/// A reference is told apart into what was put together: its referent is the
/// type that is borrowed, whatever lifetime is written and whether or not
/// `mut` is.
pub proof fn lemma_referent_of_reference(
    scope: Option<Seq<char>>,
    mutable: bool,
    ty: Seq<Seq<char>>,
)
    requires
        scope matches Some(lifetime) ==> is_lifetime(lifetime),
        is_referent(ty),
    ensures
        is_reference(reference_to(scope, mutable, ty)),
        referent(reference_to(scope, mutable, ty)) == ty,
{
    reveal_strlit("mut");
    let whole = reference_to(scope, mutable, ty);
    assert(!is_lifetime("mut"@));
    assert(whole[0] == "&"@);
    match scope {
        Some(lifetime) => {
            assert(whole[1] == lifetime);
            if mutable {
                assert(whole[2] == "mut"@);
                assert(whole.subrange(3, whole.len() as int) =~= ty);
            } else {
                assert(whole[2] == ty[0]);
                assert(whole.subrange(2, whole.len() as int) =~= ty);
            }
        },
        None => {
            if mutable {
                assert(whole[1] == "mut"@);
                assert(whole.subrange(2, whole.len() as int) =~= ty);
            } else {
                assert(whole[1] == ty[0]);
                assert(whole.subrange(1, whole.len() as int) =~= ty);
            }
        },
    }
}

/// A borrowed string slice is kept as a `String`, whatever lifetime is
/// written and whether or not `mut` is.
pub proof fn capture_type_of_text_slice(scope: Option<Seq<char>>, mutable: bool)
    requires
        scope matches Some(lifetime) ==> is_lifetime(lifetime),
    ensures
        capture_type(reference_to(scope, mutable, seq!["str"@])) == seq!["String"@],
{
    reveal_strlit("str");
    reveal_strlit("mut");
    assert("str"@ != "mut"@) by {
        assert("str"@[0] != "mut"@[0]);
    }
    lemma_referent_of_reference(scope, mutable, seq!["str"@]);
}

/// A reference to any type but a string slice is kept as that type.
pub proof fn capture_type_of_reference(
    scope: Option<Seq<char>>,
    mutable: bool,
    ty: Seq<Seq<char>>,
)
    requires
        scope matches Some(lifetime) ==> is_lifetime(lifetime),
        is_referent(ty),
        ty != seq!["str"@],
    ensures
        capture_type(reference_to(scope, mutable, ty)) == ty,
{
    lemma_referent_of_reference(scope, mutable, ty);
}

/// A type that is no reference is kept as it is.
pub proof fn capture_type_of_value(ty: Seq<Seq<char>>)
    requires
        !is_reference(ty),
    ensures
        capture_type(ty) == ty,
{
}

/// Parameters at different places have different flat names.
pub proof fn flat_names_differ(i: int, j: int)
    requires
        0 <= i,
        0 <= j,
        i != j,
    ensures
        positional(i) != positional(j),
{
    if positional(i) == positional(j) {
        let start = "arg"@.len() as int;
        assert(positional(i).subrange(start, positional(i).len() as int) =~= decimal(i as nat));
        assert(positional(j).subrange(start, positional(j).len() as int) =~= decimal(j as nat));
        lemma_decimal_injective(i as nat, j as nat);
    }
}

/// Every parameter is recorded, in the order of the signature: there are as
/// many recorded parameters as the signature has parameters other than the
/// receiver, and the one at `index` is made from the parameter at `index`.
pub proof fn captured_in_order(sig: SignatureView, index: int)
    requires
        0 <= index < typed_inputs(sig).len(),
    ensures
        analysis(sig).captured.len() == typed_inputs(sig).len(),
        analysis(sig).parameters.len() == typed_inputs(sig).len(),
        analysis(sig).captured[index].ty == capture_type(typed_inputs(sig)[index].ty),
        analysis(sig).captured[index].name == capture_name(typed_inputs(sig)[index], index),
        analysis(sig).parameters[index].ty == typed_inputs(sig)[index].ty,
{
}

/// A parameter whose pattern is an identifier keeps pattern and type.
pub proof fn identifier_kept(sig: SignatureView, index: int)
    requires
        0 <= index < typed_inputs(sig).len(),
        typed_inputs(sig)[index].pattern is Ident,
    ensures
        analysis(sig).parameters[index] == typed_inputs(sig)[index],
{
}

/// A parameter whose pattern is no identifier gets its flat name in the
/// signature, and its pattern is bound to that name again: the bindings hold
/// the pattern as it was written, together with the flat name.
pub proof fn pattern_bound_again(sig: SignatureView, index: int)
    requires
        0 <= index < typed_inputs(sig).len(),
        !(typed_inputs(sig)[index].pattern is Ident),
    ensures
        analysis(sig).parameters[index].pattern == PatternView::Ident(positional(index)),
        analysis(sig).parameters[index].ty == typed_inputs(sig)[index].ty,
        analysis(sig).bindings.contains(
            BindingView {
                pattern: pattern_text(typed_inputs(sig)[index].pattern),
                name: positional(index),
            },
        ),
{
    lemma_rebindings_contain(typed_inputs(sig), index);
}

/// The bindings of a list of parameters hold one for each pattern that is no
/// identifier.
pub proof fn lemma_rebindings_contain(parameters: Seq<ParameterView>, index: int)
    requires
        0 <= index < parameters.len(),
        !(parameters[index].pattern is Ident),
    ensures
        rebindings(parameters).contains(
            BindingView {
                pattern: pattern_text(parameters[index].pattern),
                name: positional(index),
            },
        ),
    decreases parameters.len(),
{
    let wanted = BindingView {
        pattern: pattern_text(parameters[index].pattern),
        name: positional(index),
    };
    let shorter = rebindings(parameters.drop_last());
    if index == parameters.len() - 1 {
        assert(rebindings(parameters) == shorter.push(wanted));
        assert(shorter.push(wanted)[shorter.len() as int] == wanted);
    } else {
        lemma_rebindings_contain(parameters.drop_last(), index);
        let at = choose|k: int| 0 <= k < shorter.len() && shorter[k] == wanted;
        if parameters.last().pattern is Ident {
            assert(rebindings(parameters)[at] == wanted);
        } else {
            assert(rebindings(parameters)[at] == wanted);
        }
    }
}

fn token_is(token: &String, text: &str) -> (r: bool)
    ensures
        r == (token@ == text@),
{
    let wanted = text.to_owned();
    *token == wanted
}

fn is_lifetime_token(token: &String) -> (r: bool)
    ensures
        r == is_lifetime(token@),
{
    !token.as_str().is_empty() && token.as_str().get_char(0) == '\''
}

fn single_token(text: &str) -> (r: TypeExpr)
    ensures
        r@ == seq![text@],
{
    let mut tokens: Vec<String> = Vec::new();
    tokens.push(text.to_owned());
    let ty = TypeExpr { tokens };
    assert(ty@ =~= seq![text@]);
    ty
}

impl TypeExpr {
    /// Whether the type is a borrowed reference.
    pub fn is_reference(&self) -> (r: bool)
        ensures
            r == is_reference(self@),
    {
        self.tokens.len() > 0 && token_is(&self.tokens[0], "&")
    }

    fn referent_offset(&self) -> (r: usize)
        requires
            is_reference(self@),
        ensures
            r == referent_start(self@),
            r <= self.tokens.len(),
    {
        let after_scope: usize = if self.tokens.len() > 1 && is_lifetime_token(&self.tokens[1]) {
            2
        } else {
            1
        };
        if self.tokens.len() > after_scope && token_is(&self.tokens[after_scope], "mut") {
            after_scope + 1
        } else {
            after_scope
        }
    }

    /// The type that the reference borrows; `None` where the type is no
    /// reference.
    pub fn referent(&self) -> (r: Option<TypeExpr>)
        ensures
            match r {
                Some(borrowed) => is_reference(self@) && borrowed@ == referent(self@),
                None => !is_reference(self@),
            },
    {
        if !self.is_reference() {
            return None;
        }
        let start = self.referent_offset();
        let mut tokens: Vec<String> = Vec::new();
        let mut i: usize = start;
        while i < self.tokens.len()
            invariant
                start <= i <= self.tokens.len(),
                views(tokens@) == self@.subrange(start as int, i as int),
            decreases self.tokens.len() - i,
        {
            proof {
                lemma_views_push(tokens@, self.tokens@[i as int]);
                assert(self@.subrange(start as int, i + 1) =~= self@.subrange(
                    start as int,
                    i as int,
                ).push(self@[i as int]));
            }
            tokens.push(self.tokens[i].clone());
            i += 1;
        }
        Some(TypeExpr { tokens })
    }

    /// The type by which an argument of this type is kept.
    pub fn capture_type(&self) -> (r: TypeExpr)
        ensures
            r@ == capture_type(self@),
    {
        if is_str(self) {
            single_token("String")
        } else {
            match self.referent() {
                Some(borrowed) => borrowed,
                None => self.copy(),
            }
        }
    }

    /// The expression that makes the kept value from the parameter `name` of
    /// this type.
    pub fn capture_expr(&self, name: &str) -> (r: String)
        ensures
            r@ == capture_expr(name@, self@),
    {
        if is_str(self) {
            let mut out = name.to_owned();
            out.append(".to_string()");
            out
        } else if self.is_reference() {
            let mut out = "*".to_owned();
            out.append(name);
            out
        } else {
            name.to_owned()
        }
    }
}

/// Whether a type is a borrowed string slice, whatever its lifetime and
/// whether or not it is mutable.
pub fn is_str(ty: &TypeExpr) -> (r: bool)
    ensures
        r == is_text_slice(ty@),
{
    if !ty.is_reference() {
        return false;
    }
    let start = ty.referent_offset();
    let found = start + 1 == ty.tokens.len() && token_is(&ty.tokens[start], "str");
    proof {
        if found {
            assert(referent(ty@) =~= seq!["str"@]);
        } else if start + 1 == ty.tokens.len() {
            assert(referent(ty@)[0] == ty@[start as int]);
        } else {
            assert(referent(ty@).len() != 1);
        }
    }
    found
}

/// Writes the flat name of the parameter at `index`.
pub fn positional_name(index: usize) -> (r: String)
    ensures
        r@ == positional(index as int),
{
    let mut out = "arg".to_owned();
    out.append(decimal_text(index).as_str());
    out
}

/// Reads a signature: how it takes `self`, its parameters under flat names,
/// how each argument is kept, the patterns to bind again, and the return type.
/// A signature is refused where a receiver stands behind the first input or is
/// taken by value.
pub fn analyze(sig: &Signature) -> (r: Result<Analysis, RewriteError>)
    ensures
        match r {
            Ok(found) => !malformed(sig@) && found@ == analysis(sig@),
            Err(error) => malformed(sig@) && error == RewriteError::MalformedSignature,
        },
{
    let mut receiver = ReceiverKind::Static;
    let mut first: usize = 0;
    if sig.inputs.len() > 0 {
        match &sig.inputs[0] {
            Input::Receiver(own) => {
                if !own.reference {
                    return Err(RewriteError::MalformedSignature);
                }
                receiver = if own.mutable {
                    ReceiverKind::ByMutableReference
                } else {
                    ReceiverKind::ByReference
                };
                first = 1;
            },
            Input::Typed(_) => {},
        }
    }
    let ghost typed = typed_inputs(sig@);
    let mut parameters: Vec<Parameter> = Vec::new();
    let mut captured: Vec<CapturedParameter> = Vec::new();
    let mut bindings: Vec<Binding> = Vec::new();
    let mut k: usize = first;
    while k < sig.inputs.len()
        invariant
            first <= k <= sig.inputs.len(),
            first == (if has_receiver(sig@) {
                1int
            } else {
                0int
            }),
            typed == typed_inputs(sig@),
            forall|j: int| 0 < j < k ==> !(#[trigger] sig@.inputs[j] is Receiver),
            views(parameters@) == normalized(typed).take(k - first),
            views(captured@) == captures(typed).take(k - first),
            views(bindings@) == rebindings(typed.take(k - first)),
        decreases sig.inputs.len() - k,
    {
        let index: usize = k - first;
        match &sig.inputs[k] {
            Input::Receiver(_) => {
                assert(sig@.inputs[k as int] is Receiver);
                return Err(RewriteError::MalformedSignature);
            },
            Input::Typed(parameter) => {
                assert(sig@.inputs[k as int] == InputView::Typed(parameter@));
                assert(typed[index as int] == parameter@);
                let name = match &parameter.pattern {
                    Pattern::Ident(own) => own.clone(),
                    _ => positional_name(index),
                };
                let flat = Parameter {
                    attrs: parameter.attrs.clone(),
                    pattern: Pattern::Ident(name.clone()),
                    ty: parameter.ty.copy(),
                };
                let kept = CapturedParameter {
                    name: name.clone(),
                    ty: parameter.ty.capture_type(),
                    expr: parameter.ty.capture_expr(name.as_str()),
                };
                proof {
                    assert(flat@ == normalize(typed[index as int], index as int));
                    assert(kept@ == capture(typed[index as int], index as int));
                    lemma_views_push(parameters@, flat);
                    lemma_views_push(captured@, kept);
                    lemma_take_push(normalized(typed), index as int);
                    lemma_take_push(captures(typed), index as int);
                    lemma_take_push(typed, index as int);
                }
                parameters.push(flat);
                captured.push(kept);
                match &parameter.pattern {
                    Pattern::Ident(_) => {},
                    _ => {
                        let again = Binding { pattern: parameter.pattern.render(), name };
                        proof {
                            lemma_views_push(bindings@, again);
                        }
                        bindings.push(again);
                    },
                }
            },
        }
        k += 1;
    }
    let output = match &sig.output {
        Some(ty) => ty.copy(),
        None => {
            let mut tokens: Vec<String> = Vec::new();
            tokens.push("(".to_owned());
            tokens.push(")".to_owned());
            let unit = TypeExpr { tokens };
            assert(unit@ =~= seq!["("@, ")"@]);
            unit
        },
    };
    proof {
        assert(typed.take(typed.len() as int) =~= typed);
        assert(normalized(typed).take(typed.len() as int) =~= normalized(typed));
        assert(captures(typed).take(typed.len() as int) =~= captures(typed));
        assert(!malformed(sig@));
    }
    Ok(Analysis { receiver, parameters, captured, bindings, output })
}

} // verus!
