//! Rewriting of a block of methods.
//!
//! A block that belongs to a type, with or without an interface that it
//! implements, becomes two blocks: the block itself with a guard in every
//! method, and a block of the type alone that holds the locators.

pub mod method;

use crate::capture::malformed;
use crate::error::RewriteError;
use crate::item_impl::method::{
    Hooks, Target, TargetView, hooks_for, instrumented_text, locator_text, qualified_name,
    transform as rewrite,
};
use crate::qualify::{contains_token, qualified_input, qualified_signature, qualify_signature};
use crate::syntax::{
    GenericParam, GenericParamView, Method, MethodView, SignatureView, TypeExpr, generics_text,
    render_generics, type_text,
};
use crate::text::{
    join, join_text, lemma_join_holds_part, lemma_occurs_within, lemma_take_push,
    lemma_views_push, occurs_in, push_all, push_text, tidied, tidied_without_spaces, tidy, views,
};
use vstd::prelude::*;

verus! {

/// One member of a block.
#[derive(Clone, Debug, PartialEq, Eq)]
pub enum Member {
    /// A method, which is rewritten.
    Method(Method),
    /// An associated type: its name, and its declaration as text.
    AssociatedType { name: String, text: String },
    /// Any other member, as text.
    Other(String),
}

pub enum MemberView {
    Method(MethodView),
    AssociatedType { name: Seq<char>, text: Seq<char> },
    Other(Seq<char>),
}

impl View for Member {
    type V = MemberView;

    open spec fn view(&self) -> MemberView {
        match self {
            Member::Method(method) => MemberView::Method(method@),
            Member::AssociatedType { name, text } => MemberView::AssociatedType {
                name: name@,
                text: text@,
            },
            Member::Other(text) => MemberView::Other(text@),
        }
    }
}

/// A block of members that belongs to a type.
#[derive(Clone, Debug, PartialEq, Eq)]
pub struct MethodBlock {
    pub generics: Vec<GenericParam>,
    /// The interface that the block implements, if it implements one.
    pub interface: Option<TypeExpr>,
    /// The type that the block belongs to.
    pub self_ty: TypeExpr,
    pub members: Vec<Member>,
}

pub struct MethodBlockView {
    pub generics: Seq<GenericParamView>,
    pub interface: Option<Seq<Seq<char>>>,
    pub self_ty: Seq<Seq<char>>,
    pub members: Seq<MemberView>,
}

impl View for MethodBlock {
    type V = MethodBlockView;

    open spec fn view(&self) -> MethodBlockView {
        MethodBlockView {
            generics: views(self.generics@),
            interface: match self.interface {
                Some(interface) => Some(interface@),
                None => None,
            },
            self_ty: self.self_ty@,
            members: views(self.members@),
        }
    }
}

/// The name of a member where it is an associated type.
pub open spec fn associated_name(member: MemberView) -> Option<Seq<char>> {
    match member {
        MemberView::AssociatedType { name, .. } => Some(name),
        _ => None,
    }
}

/// The names of the associated types among the members, in their order.
pub open spec fn associated_names(members: Seq<MemberView>) -> Seq<Seq<char>> {
    members.filter_map(|member: MemberView| associated_name(member))
}

/// Whether a generic parameter is named in a type.
pub open spec fn named_in(ty: Seq<Seq<char>>) -> spec_fn(GenericParamView) -> bool {
    |parameter: GenericParamView| ty.contains(parameter.name)
}

/// The generic parameters of a block that its type names, in their order.
pub open spec fn own_generics(block: MethodBlockView) -> Seq<GenericParamView> {
    block.generics.filter(named_in(block.self_ty))
}

/// The path under which the methods of a block are named: the type, or the
/// type as the interface that the block implements.
pub open spec fn path_tokens(block: MethodBlockView) -> Seq<Seq<char>> {
    match block.interface {
        Some(interface) => seq!["<"@] + block.self_ty + seq!["as"@] + interface + seq![">"@],
        None => block.self_ty,
    }
}

/// The type whose methods a block holds.
pub open spec fn target_of(block: MethodBlockView) -> TargetView {
    TargetView {
        path: type_text(path_tokens(block)),
        label: tidied(type_text(path_tokens(block))),
    }
}

/// A method of a block as it is rewritten: where the block implements an
/// interface, the paths to its associated types are written out in full.
pub open spec fn prepared(block: MethodBlockView, method: MethodView) -> MethodView {
    match block.interface {
        Some(interface) => MethodView {
            sig: qualified_signature(method.sig, interface, associated_names(block.members)),
            ..method
        },
        None => method,
    }
}

/// Whether a member is refused: it is a method with a signature that is.
pub open spec fn refused(member: MemberView) -> bool {
    member matches MemberView::Method(method) && malformed(method.sig)
}

/// What a member becomes in the block itself.
pub open spec fn member_text(block: MethodBlockView, member: MemberView) -> Seq<char> {
    match member {
        MemberView::Method(method) => instrumented_text(
            hooks_for(method.sig),
            target_of(block),
            prepared(block, method),
        ),
        MemberView::AssociatedType { text, .. } => text,
        MemberView::Other(text) => text,
    }
}

/// What a member adds to the block of locators.
pub open spec fn member_locator(block: MethodBlockView, member: MemberView) -> Seq<char> {
    match member {
        MemberView::Method(method) => locator_text(
            hooks_for(method.sig),
            target_of(block),
            prepared(block, method),
        ),
        _ => Seq::empty(),
    }
}

/// The members as they stand in the block itself.
pub open spec fn member_texts(block: MethodBlockView) -> Seq<Seq<char>> {
    Seq::new(block.members.len(), |i: int| member_text(block, block.members[i]))
}

/// What the members add to the block of locators.
pub open spec fn member_locators(block: MethodBlockView) -> Seq<Seq<char>> {
    Seq::new(block.members.len(), |i: int| member_locator(block, block.members[i]))
}

/// The interface of a block before its type: `Interface for`.
pub open spec fn interface_text(block: MethodBlockView) -> Seq<char> {
    match block.interface {
        Some(interface) => type_text(interface) + " for "@,
        None => Seq::empty(),
    }
}

/// The block itself, with its members in their order.
pub open spec fn rewritten_text(block: MethodBlockView) -> Seq<char> {
    "impl"@ + generics_text(block.generics) + " "@ + interface_text(block) + type_text(
        block.self_ty,
    ) + " { "@ + join(member_texts(block), " "@) + " }"@
}

/// The block of the type alone, with the locators.
pub open spec fn locators_text(block: MethodBlockView) -> Seq<char> {
    "impl"@ + generics_text(own_generics(block)) + " "@ + type_text(block.self_ty) + " { "@
        + join(member_locators(block), " "@) + " }"@
}

/// The two blocks that a block becomes.
pub open spec fn block_text(block: MethodBlockView) -> Seq<char> {
    rewritten_text(block) + " "@ + locators_text(block)
}

/// A member that is no method, as it was written.
pub open spec fn member_source(member: MemberView) -> Seq<char> {
    match member {
        MemberView::AssociatedType { text, .. } => text,
        MemberView::Other(text) => text,
        MemberView::Method(_) => Seq::empty(),
    }
}

/// A member that is no method is put into the rewritten block as it was
/// written, character for character, and adds nothing to the block of
/// locators.
pub proof fn member_passed_through(block: MethodBlockView, i: int)
    requires
        0 <= i < block.members.len(),
        !(block.members[i] is Method),
    ensures
        member_text(block, block.members[i]) == member_source(block.members[i]),
        member_locator(block, block.members[i]) == Seq::<char>::empty(),
        occurs_in(member_source(block.members[i]), block_text(block)),
{
    let part = member_source(block.members[i]);
    let texts = member_texts(block);
    assert(texts[i] == part);
    lemma_join_holds_part(texts, " "@, i);
    let before = "impl"@ + generics_text(block.generics) + " "@ + interface_text(block) + type_text(
        block.self_ty,
    ) + " { "@;
    lemma_occurs_within(part, before, join(texts, " "@), " }"@);
    assert(before + join(texts, " "@) + " }"@ =~= rewritten_text(block));
    lemma_occurs_within(
        part,
        Seq::<char>::empty(),
        rewritten_text(block),
        " "@ + locators_text(block),
    );
    assert(Seq::<char>::empty() + rewritten_text(block) + (" "@ + locators_text(block))
        =~= block_text(block));
}

/// The methods of a block that belongs to a type written as one token, and
/// implements no interface, are named `Type::method`.
pub proof fn plain_type_names_its_methods(block: MethodBlockView, name: Seq<char>)
    requires
        block.interface is None,
        block.self_ty.len() == 1,
        !block.self_ty[0].contains(' '),
    ensures
        qualified_name(target_of(block), name) == block.self_ty[0] + "::"@ + name,
        target_of(block).path == block.self_ty[0],
{
    tidied_without_spaces(block.self_ty[0]);
}

/// Writing paths out in full changes neither where the receivers of a
/// signature stand nor how they take `self`.
pub proof fn lemma_qualified_shape(
    sig: SignatureView,
    interface: Seq<Seq<char>>,
    associated: Seq<Seq<char>>,
)
    ensures
        malformed(qualified_signature(sig, interface, associated)) == malformed(sig),
        hooks_for(qualified_signature(sig, interface, associated)) == hooks_for(sig),
{
    let full = qualified_signature(sig, interface, associated);
    assert forall|i: int| 0 <= i < sig.inputs.len() implies (#[trigger] full.inputs[i] is Receiver)
        == (sig.inputs[i] is Receiver) by {
        assert(full.inputs[i] == qualified_input(sig.inputs[i], interface, associated));
    }
    if sig.inputs.len() > 0 {
        assert(full.inputs[0] == qualified_input(sig.inputs[0], interface, associated));
    }
    if malformed(sig) {
        if exists|i: int| 0 < i < sig.inputs.len() && #[trigger] sig.inputs[i] is Receiver {
            let i = choose|i: int| 0 < i < sig.inputs.len() && #[trigger] sig.inputs[i] is Receiver;
            assert(full.inputs[i] is Receiver);
        }
    }
    if malformed(full) {
        if exists|i: int| 0 < i < full.inputs.len() && #[trigger] full.inputs[i] is Receiver {
            let i = choose|i: int|
                0 < i < full.inputs.len() && #[trigger] full.inputs[i] is Receiver;
            assert(sig.inputs[i] is Receiver);
        }
    }
}

fn collect_associated(members: &Vec<Member>) -> (r: Vec<String>)
    ensures
        views(r@) == associated_names(views(members@)),
{
    let ghost pick = |member: MemberView| associated_name(member);
    let mut names: Vec<String> = Vec::new();
    let mut i: usize = 0;
    while i < members.len()
        invariant
            i <= members.len(),
            pick == |member: MemberView| associated_name(member),
            views(names@) == views(members@).take(i as int).filter_map(pick),
        decreases members.len() - i,
    {
        proof {
            lemma_take_push(views(members@), i as int);
        }
        match &members[i] {
            Member::AssociatedType { name, .. } => {
                proof {
                    lemma_views_push(names@, *name);
                    assert(views(names@).push(name@) =~= views(names@) + seq![name@]);
                }
                names.push(name.clone());
            },
            _ => {},
        }
        i += 1;
    }
    assert(views(members@).take(members.len() as int) =~= views(members@));
    names
}

fn keep_own_generics(block: &MethodBlock) -> (r: Vec<GenericParam>)
    ensures
        views(r@) == own_generics(block@),
{
    let ghost keep = named_in(block@.self_ty);
    let mut kept: Vec<GenericParam> = Vec::new();
    let mut i: usize = 0;
    while i < block.generics.len()
        invariant
            i <= block.generics.len(),
            keep == named_in(block@.self_ty),
            views(kept@) == block@.generics.take(i as int).filter(keep),
        decreases block.generics.len() - i,
    {
        proof {
            reveal(Seq::filter);
            lemma_take_push(block@.generics, i as int);
        }
        if contains_token(&block.self_ty.tokens, &block.generics[i].name) {
            let item = block.generics[i].copy();
            proof {
                lemma_views_push(kept@, item);
            }
            kept.push(item);
        }
        i += 1;
    }
    proof {
        reveal(Seq::filter);
        assert(block@.generics.take(block.generics.len() as int) =~= block@.generics);
    }
    kept
}

fn target_for(block: &MethodBlock) -> (r: Target)
    ensures
        r@ == target_of(block@),
{
    let path = match &block.interface {
        Some(interface) => {
            let mut tokens: Vec<String> = Vec::new();
            push_text(&mut tokens, "<");
            push_all(&mut tokens, &block.self_ty.tokens);
            push_text(&mut tokens, "as");
            push_all(&mut tokens, &interface.tokens);
            push_text(&mut tokens, ">");
            assert(views(tokens@) =~= path_tokens(block@));
            join_text(&tokens, " ")
        },
        None => block.self_ty.render(),
    };
    let label = tidy(path.as_str());
    Target { path, label }
}

fn rewrite_member(
    block: &MethodBlock,
    target: &Target,
    associated: &Vec<String>,
    member: &Member,
) -> (r: Result<(String, String), RewriteError>)
    requires
        target@ == target_of(block@),
        views(associated@) == associated_names(block@.members),
    ensures
        match r {
            Ok(pair) => {
                &&& !refused(member@)
                &&& pair.0@ == member_text(block@, member@)
                &&& pair.1@ == member_locator(block@, member@)
            },
            Err(error) => refused(member@) && error == RewriteError::MalformedSignature,
        },
{
    match member {
        Member::Method(method) => {
            let hooks = Hooks::of(&method.sig);
            match &block.interface {
                Some(interface) => {
                    let full = Method {
                        attrs: method.attrs.clone(),
                        vis: method.vis.copy(),
                        sig: qualify_signature(&method.sig, interface, associated),
                        body: method.body.clone(),
                    };
                    proof {
                        lemma_qualified_shape(method@.sig, interface@, views(associated@));
                        assert(full@ == prepared(block@, method@));
                    }
                    rewrite(&hooks, target, &full)
                },
                None => rewrite(&hooks, target, method),
            }
        },
        Member::AssociatedType { text, .. } => Ok((text.clone(), String::new())),
        Member::Other(text) => Ok((text.clone(), String::new())),
    }
}

fn rewrite_members(block: &MethodBlock) -> (r: Result<(Vec<String>, Vec<String>), RewriteError>)
    ensures
        match r {
            Ok(lists) => {
                &&& forall|i: int|
                    0 <= i < block@.members.len() ==> !refused(#[trigger] block@.members[i])
                &&& views(lists.0@) == member_texts(block@)
                &&& views(lists.1@) == member_locators(block@)
            },
            Err(error) => {
                &&& error == RewriteError::MalformedSignature
                &&& exists|i: int|
                    0 <= i < block@.members.len() && refused(#[trigger] block@.members[i])
            },
        },
{
    let target = target_for(block);
    let associated = collect_associated(&block.members);
    let mut texts: Vec<String> = Vec::new();
    let mut locators: Vec<String> = Vec::new();
    let mut i: usize = 0;
    while i < block.members.len()
        invariant
            i <= block.members.len(),
            target@ == target_of(block@),
            views(associated@) == associated_names(block@.members),
            forall|j: int| 0 <= j < i ==> !refused(#[trigger] block@.members[j]),
            views(texts@) == member_texts(block@).take(i as int),
            views(locators@) == member_locators(block@).take(i as int),
        decreases block.members.len() - i,
    {
        match rewrite_member(block, &target, &associated, &block.members[i]) {
            Ok((text, locator)) => {
                proof {
                    lemma_views_push(texts@, text);
                    lemma_views_push(locators@, locator);
                    lemma_take_push(member_texts(block@), i as int);
                    lemma_take_push(member_locators(block@), i as int);
                }
                texts.push(text);
                locators.push(locator);
            },
            Err(error) => {
                assert(refused(block@.members[i as int]));
                return Err(error);
            },
        }
        i += 1;
    }
    proof {
        assert(member_texts(block@).take(block.members.len() as int) =~= member_texts(block@));
        assert(member_locators(block@).take(block.members.len() as int) =~= member_locators(
            block@,
        ));
    }
    Ok((texts, locators))
}

fn render_rewritten(block: &MethodBlock, texts: &Vec<String>) -> (r: String)
    requires
        views(texts@) == member_texts(block@),
    ensures
        r@ == rewritten_text(block@),
{
    let interface = match &block.interface {
        Some(interface) => {
            let mut text = interface.render();
            text.append(" for ");
            text
        },
        None => String::new(),
    };
    let mut out = "impl".to_owned();
    out.append(render_generics(&block.generics).as_str());
    out.append(" ");
    out.append(interface.as_str());
    out.append(block.self_ty.render().as_str());
    out.append(" { ");
    out.append(join_text(texts, " ").as_str());
    out.append(" }");
    out
}

fn render_locators(block: &MethodBlock, locators: &Vec<String>) -> (r: String)
    requires
        views(locators@) == member_locators(block@),
    ensures
        r@ == locators_text(block@),
{
    let mut out = "impl".to_owned();
    out.append(render_generics(&keep_own_generics(block)).as_str());
    out.append(" ");
    out.append(block.self_ty.render().as_str());
    out.append(" { ");
    out.append(join_text(locators, " ").as_str());
    out.append(" }");
    out
}

/// Rewrites a block. Every method gets its guard, and its locator goes into a
/// second block, which belongs to the type alone and keeps of the generic
/// parameters those that the type names. Members that are no methods are put
/// into the first block as they are. Where the block implements an interface,
/// the paths to its associated types are first written out in full in every
/// signature. A block with a method whose signature is refused is not
/// rewritten.
pub fn transform(block: &MethodBlock) -> (r: Result<String, RewriteError>)
    ensures
        match r {
            Ok(text) => {
                &&& forall|i: int|
                    0 <= i < block@.members.len() ==> !refused(#[trigger] block@.members[i])
                &&& text@ == block_text(block@)
            },
            Err(error) => {
                &&& error == RewriteError::MalformedSignature
                &&& exists|i: int|
                    0 <= i < block@.members.len() && refused(#[trigger] block@.members[i])
            },
        },
{
    match rewrite_members(block) {
        Ok((texts, locators)) => {
            let mut out = render_rewritten(block, &texts);
            out.append(" ");
            out.append(render_locators(block, &locators).as_str());
            Ok(out)
        },
        Err(error) => Err(error),
    }
}

} // verus!
