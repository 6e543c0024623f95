//! Rewriting of one method: the method with a guard before its body, and the
//! declaration through which a behaviour is registered for it.

use crate::capture::{
    Analysis, AnalysisView, Binding, BindingView, CapturedParameter, CapturedParameterView,
    ReceiverKind, analysis, analyze, capture_type, has_receiver, malformed, output_type,
    positional, positional_name, typed_inputs,
};
use crate::error::RewriteError;
use crate::syntax::{
    Input, InputView, Method, MethodView, Signature, SignatureView, generics_text, parameter_text,
    receiver_text, render_generics, type_text, visibility_text,
};
use crate::text::{
    concat, concat_text, decimal, decimal_text, join, join_text, lemma_take_push,
    lemma_views_push, quote_text, string_literal, views,
};
use vstd::prelude::*;

verus! {

/// How the rewritten code reaches the registry of behaviours. Each field is
/// source text that is put into the rewritten declarations as it is.
#[derive(Clone, Debug, PartialEq, Eq)]
pub struct Hooks {
    /// An attribute under which the guard and the locator exist, such as
    /// `#[cfg(test)]`; empty where they always exist.
    pub condition: String,
    /// The expression that gives the registry to a locator.
    pub registry: String,
    /// Statements at the start of a locator that make sure that the identity
    /// of the mocked value exists; empty where the registry sees to it.
    pub identity: String,
    /// The path of the operation that records a call and looks for a
    /// registered result.
    pub record: String,
}

pub struct HooksView {
    pub condition: Seq<char>,
    pub registry: Seq<char>,
    pub identity: Seq<char>,
    pub record: Seq<char>,
}

impl View for Hooks {
    type V = HooksView;

    open spec fn view(&self) -> HooksView {
        HooksView {
            condition: self.condition@,
            registry: self.registry@,
            identity: self.identity@,
            record: self.record@,
        }
    }
}

/// The hooks of a method with a receiver: the registry of the value itself.
pub open spec fn instance_hooks() -> HooksView {
    HooksView {
        condition: Seq::empty(),
        registry: "self.mry.mocks_write()"@,
        identity: Seq::empty(),
        record: "self.mry.record_call_and_find_mock_output"@,
    }
}

/// The hooks of a method without a receiver: the registry of the process.
pub open spec fn process_wide_hooks() -> HooksView {
    HooksView {
        condition: Seq::empty(),
        registry: "Box::new(mry::STATIC_MOCKS.write())"@,
        identity: Seq::empty(),
        record: "mry::STATIC_MOCKS.write().record_call_and_find_mock_output"@,
    }
}

/// The hooks that go with a signature: those of the value where it has a
/// receiver, those of the process where it has none.
pub open spec fn hooks_for(sig: SignatureView) -> HooksView {
    if has_receiver(sig) {
        instance_hooks()
    } else {
        process_wide_hooks()
    }
}

impl Hooks {
    /// The hooks of a method with a receiver.
    pub fn instance() -> (r: Hooks)
        ensures
            r@ == instance_hooks(),
    {
        Hooks {
            condition: String::new(),
            registry: "self.mry.mocks_write()".to_owned(),
            identity: String::new(),
            record: "self.mry.record_call_and_find_mock_output".to_owned(),
        }
    }

    /// The hooks of a method without a receiver.
    pub fn process_wide() -> (r: Hooks)
        ensures
            r@ == process_wide_hooks(),
    {
        Hooks {
            condition: String::new(),
            registry: "Box::new(mry::STATIC_MOCKS.write())".to_owned(),
            identity: String::new(),
            record: "mry::STATIC_MOCKS.write().record_call_and_find_mock_output".to_owned(),
        }
    }

    /// The hooks that go with a signature.
    pub fn of(sig: &Signature) -> (r: Hooks)
        ensures
            r@ == hooks_for(sig@),
    {
        if sig.inputs.len() > 0 {
            match &sig.inputs[0] {
                Input::Receiver(_) => {
                    assert(sig@.inputs[0] is Receiver);
                    Hooks::instance()
                },
                Input::Typed(_) => {
                    assert(sig@.inputs[0] is Typed);
                    Hooks::process_wide()
                },
            }
        } else {
            Hooks::process_wide()
        }
    }
}

/// The type whose method is rewritten.
#[derive(Clone, Debug, PartialEq, Eq)]
pub struct Target {
    /// The path under which the type's methods are named in code, such as
    /// `Cat` or `< Cat as Animal >`.
    pub path: String,
    /// The name of the type as a reader sees it, such as `Cat`.
    pub label: String,
}

pub struct TargetView {
    pub path: Seq<char>,
    pub label: Seq<char>,
}

impl View for Target {
    type V = TargetView;

    open spec fn view(&self) -> TargetView {
        TargetView { path: self.path@, label: self.label@ }
    }
}

/// The expression whose value identifies the method `name` in the registry.
pub open spec fn key_text(target: TargetView, name: Seq<char>) -> Seq<char> {
    "std::any::Any::type_id(& "@ + target.path + " :: "@ + name + ")"@
}

/// The name of the method `name` as a reader sees it: `Type::name`.
pub open spec fn qualified_name(target: TargetView, name: Seq<char>) -> Seq<char> {
    target.label + "::"@ + name
}

/// The expressions that make the kept values, in the order of the signature.
pub open spec fn capture_exprs(captured: Seq<CapturedParameterView>) -> Seq<Seq<char>> {
    Seq::new(captured.len(), |i: int| captured[i].expr)
}

/// The texts of the types of the kept values, in the order of the signature.
pub open spec fn capture_types(captured: Seq<CapturedParameterView>) -> Seq<Seq<char>> {
    Seq::new(captured.len(), |i: int| type_text(captured[i].ty))
}

/// The guard: where a result is registered for the call, it is returned.
pub open spec fn guard_text(
    hooks: HooksView,
    target: TargetView,
    name: Seq<char>,
    captured: Seq<CapturedParameterView>,
) -> Seq<char> {
    hooks.condition + " if let Some(out) = "@ + hooks.record + "("@ + key_text(target, name)
        + ", "@ + string_literal(qualified_name(target, name)) + ", ("@ + join(
        capture_exprs(captured),
        ", "@,
    ) + ")) { return out; } "@
}

/// The statement that binds a pattern again.
pub open spec fn binding_text(binding: BindingView) -> Seq<char> {
    "let "@ + binding.pattern + " = "@ + binding.name + "; "@
}

/// The statements that bind the patterns again, in the order of the signature.
pub open spec fn bindings_text(bindings: Seq<BindingView>) -> Seq<char> {
    concat(Seq::new(bindings.len(), |i: int| binding_text(bindings[i])))
}

/// The inputs of the rewritten method: the receiver as it was written, then
/// the parameters under their flat names.
pub open spec fn inputs_text(sig: SignatureView, found: AnalysisView) -> Seq<char> {
    let parameters = join(
        Seq::new(found.parameters.len(), |i: int| parameter_text(found.parameters[i])),
        ", "@,
    );
    if has_receiver(sig) {
        receiver_text(sig.inputs[0]->Receiver_0) + ", "@ + parameters
    } else {
        parameters
    }
}

/// The word `async` where the method is asynchronous.
pub open spec fn async_text(asyncness: bool) -> Seq<char> {
    if asyncness {
        "async "@
    } else {
        Seq::empty()
    }
}

/// How the rewritten method begins: attributes, visibility and name as they
/// were written.
pub open spec fn method_head(method: MethodView) -> Seq<char> {
    method.attrs + " "@ + visibility_text(method.vis) + async_text(method.sig.asyncness) + "fn "@
        + method.sig.name
}

/// The rest of the signature of the rewritten method, and the guard with
/// which its body begins.
pub open spec fn method_opening(hooks: HooksView, target: TargetView, method: MethodView) -> Seq<
    char,
> {
    let found = analysis(method.sig);
    generics_text(method.sig.generics) + "("@ + inputs_text(method.sig, found) + ") -> "@
        + type_text(found.output) + " { "@ + guard_text(
        hooks,
        target,
        method.sig.name,
        found.captured,
    )
}

/// How the rewritten method ends: the patterns bound again, then the
/// statements of the method as they were written.
pub open spec fn method_end(method: MethodView) -> Seq<char> {
    bindings_text(analysis(method.sig).bindings) + method.body + " }"@
}

/// The rewritten method: attributes, visibility and signature as they were
/// written, and in the body first the guard, then the patterns bound again,
/// then the statements of the method.
pub open spec fn instrumented_text(hooks: HooksView, target: TargetView, method: MethodView) -> Seq<
    char,
> {
    method_head(method) + method_opening(hooks, target, method) + method_end(method)
}

/// The parameter of a locator that takes what the argument at `index` is
/// matched against.
pub open spec fn matcher_parameter(index: int, ty: Seq<Seq<char>>) -> Seq<char> {
    positional(index) + ": impl Into<mry::Matcher< "@ + type_text(ty) + " > >"@
}

/// The inputs of a locator: the receiver where the method has one, then one
/// parameter for each kept value.
pub open spec fn locator_inputs(found: AnalysisView) -> Seq<char> {
    (if found.receiver != ReceiverKind::Static {
        "&'mry mut self, "@
    } else {
        Seq::empty()
    }) + join(
        Seq::new(found.captured.len(), |i: int| matcher_parameter(i, found.captured[i].ty)),
        ", "@,
    )
}

/// The type of the kept values together.
pub open spec fn tuple_text(captured: Seq<CapturedParameterView>) -> Seq<char> {
    "("@ + join(capture_types(captured), ", "@) + ")"@
}

/// The shape of a behaviour: it is named by the number of kept values.
pub open spec fn behavior_text(found: AnalysisView) -> Seq<char> {
    "mry::Behavior"@ + decimal(found.captured.len()) + "< "@ + tuple_text(found.captured) + ", "@
        + type_text(found.output) + " >"@
}

/// The type that a locator returns.
pub open spec fn locator_type_text(found: AnalysisView) -> Seq<char> {
    "mry::MockLocator<'mry, "@ + tuple_text(found.captured) + ", "@ + type_text(found.output)
        + ", "@ + behavior_text(found) + " >"@
}

/// The matchers that a locator hands on, one for each kept value.
pub open spec fn matcher_text(count: nat) -> Seq<char> {
    "Some(("@ + concat(Seq::new(count, |i: int| positional(i) + ".into(), "@)) + ").into())"@
}

/// How a locator begins: behind the condition of the hooks stands the
/// visibility of the method, then the name, which is `mock_` and the method's.
pub open spec fn locator_head(hooks: HooksView, method: MethodView) -> Seq<char> {
    hooks.condition + " "@ + visibility_text(method.vis) + "fn mock_"@ + method.sig.name
}

/// The inputs, the type and the body of a locator.
pub open spec fn locator_rest(hooks: HooksView, target: TargetView, method: MethodView) -> Seq<
    char,
> {
    let found = analysis(method.sig);
    "<'mry>("@ + locator_inputs(found) + ") -> "@ + locator_type_text(found) + " { "@
        + hooks.identity + " mry::MockLocator { mocks: "@ + hooks.registry + ", key: "@ + key_text(
        target,
        method.sig.name,
    ) + ", name: "@ + string_literal(qualified_name(target, method.sig.name)) + ", matcher: "@
        + matcher_text(found.captured.len()) + ", _phantom: Default::default(), } }"@
}

/// The locator of a method: named `mock_` and the method's name, as visible as
/// the method, with the receiver where the method has one.
pub open spec fn locator_text(hooks: HooksView, target: TargetView, method: MethodView) -> Seq<
    char,
> {
    locator_head(hooks, method) + locator_rest(hooks, target, method)
}

/// Whether `text` begins with `start`.
pub open spec fn begins_with(text: Seq<char>, start: Seq<char>) -> bool {
    start.len() <= text.len() && text.subrange(0, start.len() as int) == start
}

/// Whether `text` ends with `end`.
pub open spec fn ends_with(text: Seq<char>, end: Seq<char>) -> bool {
    end.len() <= text.len() && text.subrange(text.len() - end.len(), text.len() as int) == end
}

/// A text begins with what stands first in it.
pub proof fn lemma_begins_with(start: Seq<char>, rest: Seq<char>)
    ensures
        begins_with(start + rest, start),
{
    assert((start + rest).subrange(0, start.len() as int) =~= start);
}

/// A text ends with what stands last in it.
pub proof fn lemma_ends_with(rest: Seq<char>, end: Seq<char>)
    ensures
        ends_with(rest + end, end),
{
    assert((rest + end).subrange((rest + end).len() - end.len(), (rest + end).len() as int)
        =~= end);
}

/// The locator is as visible as the method, whatever that visibility is: its
/// declaration begins, behind the condition of the hooks, with the visibility
/// of the method, and the rewritten method itself keeps that visibility.
pub proof fn locator_mirrors_visibility(hooks: HooksView, target: TargetView, method: MethodView)
    ensures
        begins_with(
            locator_text(hooks, target, method),
            hooks.condition + " "@ + visibility_text(method.vis) + "fn mock_"@ + method.sig.name,
        ),
        begins_with(
            instrumented_text(hooks, target, method),
            method.attrs + " "@ + visibility_text(method.vis) + async_text(method.sig.asyncness)
                + "fn "@ + method.sig.name,
        ),
{
    lemma_begins_with(locator_head(hooks, method), locator_rest(hooks, target, method));
    let head = method_head(method);
    let rest = method_opening(hooks, target, method) + method_end(method);
    lemma_begins_with(head, rest);
    assert(head + rest =~= instrumented_text(hooks, target, method));
}

/// A method with `n` parameters other than the receiver gets a locator of the
/// behaviour named by `n`, over `n` kept values in the order of the
/// signature, and takes one matcher for each of them.
pub proof fn locator_arity(sig: SignatureView)
    ensures
        analysis(sig).captured.len() == typed_inputs(sig).len(),
        capture_types(analysis(sig).captured).len() == typed_inputs(sig).len(),
        forall|i: int|
            0 <= i < typed_inputs(sig).len() ==> #[trigger] capture_types(
                analysis(sig).captured,
            )[i] == type_text(capture_type(typed_inputs(sig)[i].ty)),
        behavior_text(analysis(sig)) == "mry::Behavior"@ + decimal(typed_inputs(sig).len()) + "< "@
            + tuple_text(analysis(sig).captured) + ", "@ + type_text(output_type(sig)) + " >"@,
{
}

/// The body of the rewritten method ends with the patterns bound again and
/// then the statements of the method as they were written.
pub proof fn body_kept(hooks: HooksView, target: TargetView, method: MethodView)
    ensures
        ends_with(
            instrumented_text(hooks, target, method),
            bindings_text(analysis(method.sig).bindings) + method.body + " }"@,
        ),
{
    lemma_ends_with(
        method_head(method) + method_opening(hooks, target, method),
        method_end(method),
    );
}

fn render_key(target: &Target, name: &String) -> (r: String)
    ensures
        r@ == key_text(target@, name@),
{
    let mut out = "std::any::Any::type_id(& ".to_owned();
    out.append(target.path.as_str());
    out.append(" :: ");
    out.append(name.as_str());
    out.append(")");
    out
}

fn render_label(target: &Target, name: &String) -> (r: String)
    ensures
        r@ == string_literal(qualified_name(target@, name@)),
{
    let mut label = target.label.clone();
    label.append("::");
    label.append(name.as_str());
    quote_text(label.as_str())
}

fn render_guard(hooks: &Hooks, target: &Target, name: &String, captured: &Vec<CapturedParameter>) -> (r:
    String)
    ensures
        r@ == guard_text(hooks@, target@, name@, views(captured@)),
{
    let ghost wanted = capture_exprs(views(captured@));
    let mut exprs: Vec<String> = Vec::new();
    let mut i: usize = 0;
    while i < captured.len()
        invariant
            i <= captured.len(),
            wanted == capture_exprs(views(captured@)),
            views(exprs@) == wanted.take(i as int),
        decreases captured.len() - i,
    {
        proof {
            lemma_views_push(exprs@, captured@[i as int].expr);
            lemma_take_push(wanted, i as int);
        }
        exprs.push(captured[i].expr.clone());
        i += 1;
    }
    assert(wanted.take(captured.len() as int) =~= wanted);
    let mut out = hooks.condition.clone();
    out.append(" if let Some(out) = ");
    out.append(hooks.record.as_str());
    out.append("(");
    out.append(render_key(target, name).as_str());
    out.append(", ");
    out.append(render_label(target, name).as_str());
    out.append(", (");
    out.append(join_text(&exprs, ", ").as_str());
    out.append(")) { return out; } ");
    out
}

fn render_bindings(bindings: &Vec<Binding>) -> (r: String)
    ensures
        r@ == bindings_text(views(bindings@)),
{
    let ghost wanted = Seq::new(bindings@.len(), |i: int| binding_text(views(bindings@)[i]));
    let mut statements: Vec<String> = Vec::new();
    let mut i: usize = 0;
    while i < bindings.len()
        invariant
            i <= bindings.len(),
            wanted == Seq::new(bindings@.len(), |i: int| binding_text(views(bindings@)[i])),
            views(statements@) == wanted.take(i as int),
        decreases bindings.len() - i,
    {
        let mut statement = "let ".to_owned();
        statement.append(bindings[i].pattern.as_str());
        statement.append(" = ");
        statement.append(bindings[i].name.as_str());
        statement.append("; ");
        proof {
            lemma_views_push(statements@, statement);
            lemma_take_push(wanted, i as int);
        }
        statements.push(statement);
        i += 1;
    }
    assert(wanted.take(bindings.len() as int) =~= wanted);
    concat_text(&statements)
}

fn render_inputs(sig: &Signature, found: &Analysis) -> (r: String)
    ensures
        r@ == inputs_text(sig@, found@),
{
    let ghost wanted = Seq::new(
        found@.parameters.len(),
        |i: int| parameter_text(found@.parameters[i]),
    );
    let mut texts: Vec<String> = Vec::new();
    let mut i: usize = 0;
    while i < found.parameters.len()
        invariant
            i <= found.parameters.len(),
            wanted == Seq::new(
                found@.parameters.len(),
                |i: int| parameter_text(found@.parameters[i]),
            ),
            views(texts@) == wanted.take(i as int),
        decreases found.parameters.len() - i,
    {
        let text = found.parameters[i].render();
        proof {
            lemma_views_push(texts@, text);
            lemma_take_push(wanted, i as int);
        }
        texts.push(text);
        i += 1;
    }
    assert(wanted.take(found.parameters.len() as int) =~= wanted);
    let parameters = join_text(&texts, ", ");
    if sig.inputs.len() > 0 {
        match &sig.inputs[0] {
            Input::Receiver(receiver) => {
                assert(sig@.inputs[0] == InputView::Receiver(receiver@));
                let mut out = receiver.render();
                out.append(", ");
                out.append(parameters.as_str());
                out
            },
            Input::Typed(_) => {
                assert(sig@.inputs[0] is Typed);
                parameters
            },
        }
    } else {
        parameters
    }
}

fn render_method_head(method: &Method) -> (r: String)
    ensures
        r@ == method_head(method@),
{
    let mut out = method.attrs.clone();
    out.append(" ");
    out.append(method.vis.render().as_str());
    let asyncness = if method.sig.asyncness {
        "async ".to_owned()
    } else {
        String::new()
    };
    out.append(asyncness.as_str());
    out.append("fn ");
    out.append(method.sig.name.as_str());
    out
}

fn render_method_opening(hooks: &Hooks, target: &Target, method: &Method, found: &Analysis) -> (r:
    String)
    requires
        found@ == analysis(method@.sig),
    ensures
        r@ == method_opening(hooks@, target@, method@),
{
    let mut out = render_generics(&method.sig.generics);
    out.append("(");
    out.append(render_inputs(&method.sig, found).as_str());
    out.append(") -> ");
    out.append(found.output.render().as_str());
    out.append(" { ");
    out.append(render_guard(hooks, target, &method.sig.name, &found.captured).as_str());
    out
}

fn render_method_end(method: &Method, found: &Analysis) -> (r: String)
    requires
        found@ == analysis(method@.sig),
    ensures
        r@ == method_end(method@),
{
    let mut out = render_bindings(&found.bindings);
    out.append(method.body.as_str());
    out.append(" }");
    out
}

fn render_instrumented(hooks: &Hooks, target: &Target, method: &Method, found: &Analysis) -> (r:
    String)
    requires
        found@ == analysis(method@.sig),
    ensures
        r@ == instrumented_text(hooks@, target@, method@),
{
    let mut out = render_method_head(method);
    out.append(render_method_opening(hooks, target, method, found).as_str());
    out.append(render_method_end(method, found).as_str());
    out
}

fn render_tuple(captured: &Vec<CapturedParameter>) -> (r: String)
    ensures
        r@ == tuple_text(views(captured@)),
{
    let ghost wanted = capture_types(views(captured@));
    let mut types: Vec<String> = Vec::new();
    let mut i: usize = 0;
    while i < captured.len()
        invariant
            i <= captured.len(),
            wanted == capture_types(views(captured@)),
            views(types@) == wanted.take(i as int),
        decreases captured.len() - i,
    {
        let text = captured[i].ty.render();
        proof {
            lemma_views_push(types@, text);
            lemma_take_push(wanted, i as int);
        }
        types.push(text);
        i += 1;
    }
    assert(wanted.take(captured.len() as int) =~= wanted);
    let mut out = "(".to_owned();
    out.append(join_text(&types, ", ").as_str());
    out.append(")");
    out
}

fn render_locator_inputs(found: &Analysis) -> (r: String)
    ensures
        r@ == locator_inputs(found@),
{
    let ghost wanted = Seq::new(
        found@.captured.len(),
        |i: int| matcher_parameter(i, found@.captured[i].ty),
    );
    let mut texts: Vec<String> = Vec::new();
    let mut i: usize = 0;
    while i < found.captured.len()
        invariant
            i <= found.captured.len(),
            wanted == Seq::new(
                found@.captured.len(),
                |i: int| matcher_parameter(i, found@.captured[i].ty),
            ),
            views(texts@) == wanted.take(i as int),
        decreases found.captured.len() - i,
    {
        let mut text = positional_name(i);
        text.append(": impl Into<mry::Matcher< ");
        text.append(found.captured[i].ty.render().as_str());
        text.append(" > >");
        proof {
            lemma_views_push(texts@, text);
            lemma_take_push(wanted, i as int);
        }
        texts.push(text);
        i += 1;
    }
    assert(wanted.take(found.captured.len() as int) =~= wanted);
    let mut out = match found.receiver {
        ReceiverKind::Static => String::new(),
        _ => "&'mry mut self, ".to_owned(),
    };
    out.append(join_text(&texts, ", ").as_str());
    out
}

fn render_behavior(found: &Analysis) -> (r: String)
    ensures
        r@ == behavior_text(found@),
{
    let mut out = "mry::Behavior".to_owned();
    out.append(decimal_text(found.captured.len()).as_str());
    out.append("< ");
    out.append(render_tuple(&found.captured).as_str());
    out.append(", ");
    out.append(found.output.render().as_str());
    out.append(" >");
    out
}

fn render_locator_type(found: &Analysis) -> (r: String)
    ensures
        r@ == locator_type_text(found@),
{
    let mut out = "mry::MockLocator<'mry, ".to_owned();
    out.append(render_tuple(&found.captured).as_str());
    out.append(", ");
    out.append(found.output.render().as_str());
    out.append(", ");
    out.append(render_behavior(found).as_str());
    out.append(" >");
    out
}

fn render_matcher(count: usize) -> (r: String)
    ensures
        r@ == matcher_text(count as nat),
{
    let ghost wanted = Seq::new(count as nat, |i: int| positional(i) + ".into(), "@);
    let mut texts: Vec<String> = Vec::new();
    let mut i: usize = 0;
    while i < count
        invariant
            i <= count,
            wanted == Seq::new(count as nat, |i: int| positional(i) + ".into(), "@),
            views(texts@) == wanted.take(i as int),
        decreases count - i,
    {
        let mut text = positional_name(i);
        text.append(".into(), ");
        proof {
            lemma_views_push(texts@, text);
            lemma_take_push(wanted, i as int);
        }
        texts.push(text);
        i += 1;
    }
    assert(wanted.take(count as int) =~= wanted);
    let mut out = "Some((".to_owned();
    out.append(concat_text(&texts).as_str());
    out.append(").into())");
    out
}

fn render_locator_head(hooks: &Hooks, method: &Method) -> (r: String)
    ensures
        r@ == locator_head(hooks@, method@),
{
    let mut out = hooks.condition.clone();
    out.append(" ");
    out.append(method.vis.render().as_str());
    out.append("fn mock_");
    out.append(method.sig.name.as_str());
    out
}

fn render_locator_rest(hooks: &Hooks, target: &Target, method: &Method, found: &Analysis) -> (r:
    String)
    requires
        found@ == analysis(method@.sig),
    ensures
        r@ == locator_rest(hooks@, target@, method@),
{
    let mut out = "<'mry>(".to_owned();
    out.append(render_locator_inputs(found).as_str());
    out.append(") -> ");
    out.append(render_locator_type(found).as_str());
    out.append(" { ");
    out.append(hooks.identity.as_str());
    out.append(" mry::MockLocator { mocks: ");
    out.append(hooks.registry.as_str());
    out.append(", key: ");
    out.append(render_key(target, &method.sig.name).as_str());
    out.append(", name: ");
    out.append(render_label(target, &method.sig.name).as_str());
    out.append(", matcher: ");
    out.append(render_matcher(found.captured.len()).as_str());
    out.append(", _phantom: Default::default(), } }");
    out
}

fn render_locator(hooks: &Hooks, target: &Target, method: &Method, found: &Analysis) -> (r: String)
    requires
        found@ == analysis(method@.sig),
    ensures
        r@ == locator_text(hooks@, target@, method@),
{
    let mut out = render_locator_head(hooks, method);
    out.append(render_locator_rest(hooks, target, method, found).as_str());
    out
}

/// Rewrites one method of `target`. The first text is the method with the
/// guard before its body, the second is its locator. A method whose signature
/// is refused is not rewritten.
pub fn transform(hooks: &Hooks, target: &Target, method: &Method) -> (r: Result<
    (String, String),
    RewriteError,
>)
    ensures
        match r {
            Ok(texts) => {
                &&& !malformed(method@.sig)
                &&& texts.0@ == instrumented_text(hooks@, target@, method@)
                &&& texts.1@ == locator_text(hooks@, target@, method@)
            },
            Err(error) => malformed(method@.sig) && error == RewriteError::MalformedSignature,
        },
{
    match analyze(&method.sig) {
        Ok(found) => {
            let instrumented = render_instrumented(hooks, target, method, &found);
            let locator = render_locator(hooks, target, method, &found);
            Ok((instrumented, locator))
        },
        Err(error) => Err(error),
    }
}

} // verus!
