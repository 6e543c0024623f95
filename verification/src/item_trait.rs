//! Rewriting of an interface: beside it stands a type that implements it
//! through mock points alone.

use crate::capture::malformed;
use crate::error::RewriteError;
use crate::item_impl::method::{
    Hooks, Target, TargetView, hooks_for, instrumented_text, locator_text, transform as rewrite,
};
use crate::item_impl::lemma_qualified_shape;
use crate::qualify::{qualified_signature, qualify_signature};
use crate::syntax::{
    GenericParam, GenericParamView, Method, MethodView, Signature, SignatureView, TypeExpr,
    Visibility, VisibilityView, generics_text, render_generics, visibility_text,
};
use crate::text::{
    join, join_text, lemma_join_holds_part, lemma_occurs_within, lemma_take_push,
    lemma_views_push, occurs_in, push_text, quote_text, string_literal, views,
};
use vstd::prelude::*;

verus! {

/// A method of an interface.
#[derive(Clone, Debug, PartialEq, Eq)]
pub struct InterfaceMethod {
    pub attrs: String,
    pub sig: Signature,
    /// The body that the interface gives the method, braces included; `None`
    /// where it gives none.
    pub default: Option<String>,
}

pub struct InterfaceMethodView {
    pub attrs: Seq<char>,
    pub sig: SignatureView,
    pub default: Option<Seq<char>>,
}

impl View for InterfaceMethod {
    type V = InterfaceMethodView;

    open spec fn view(&self) -> InterfaceMethodView {
        InterfaceMethodView {
            attrs: self.attrs@,
            sig: self.sig@,
            default: match self.default {
                Some(body) => Some(body@),
                None => None,
            },
        }
    }
}

/// One member of an interface.
#[derive(Clone, Debug, PartialEq, Eq)]
pub enum InterfaceMember {
    Method(InterfaceMethod),
    /// An associated type: its name, and its declaration as text.
    AssociatedType { name: String, text: String },
    /// Any other member, as text.
    Other(String),
}

pub enum InterfaceMemberView {
    Method(InterfaceMethodView),
    AssociatedType { name: Seq<char>, text: Seq<char> },
    Other(Seq<char>),
}

impl View for InterfaceMember {
    type V = InterfaceMemberView;

    open spec fn view(&self) -> InterfaceMemberView {
        match self {
            InterfaceMember::Method(method) => InterfaceMemberView::Method(method@),
            InterfaceMember::AssociatedType { name, text } => InterfaceMemberView::AssociatedType {
                name: name@,
                text: text@,
            },
            InterfaceMember::Other(text) => InterfaceMemberView::Other(text@),
        }
    }
}

/// The declaration of an interface.
#[derive(Clone, Debug, PartialEq, Eq)]
pub struct InterfaceDeclaration {
    /// The whole declaration as it is written.
    pub source: String,
    pub vis: Visibility,
    pub name: String,
    pub generics: Vec<GenericParam>,
    pub members: Vec<InterfaceMember>,
}

pub struct InterfaceDeclarationView {
    pub source: Seq<char>,
    pub vis: VisibilityView,
    pub name: Seq<char>,
    pub generics: Seq<GenericParamView>,
    pub members: Seq<InterfaceMemberView>,
}

impl View for InterfaceDeclaration {
    type V = InterfaceDeclarationView;

    open spec fn view(&self) -> InterfaceDeclarationView {
        InterfaceDeclarationView {
            source: self.source@,
            vis: self.vis@,
            name: self.name@,
            generics: views(self.generics@),
            members: views(self.members@),
        }
    }
}

/// The name of a member where it is an associated type.
pub open spec fn associated_name(member: InterfaceMemberView) -> Option<Seq<char>> {
    match member {
        InterfaceMemberView::AssociatedType { name, .. } => Some(name),
        _ => None,
    }
}

/// The names of the associated types of an interface, in their order.
pub open spec fn associated_names(members: Seq<InterfaceMemberView>) -> Seq<Seq<char>> {
    members.filter_map(|member: InterfaceMemberView| associated_name(member))
}

/// Whether a member is an asynchronous method.
pub open spec fn is_async(member: InterfaceMemberView) -> bool {
    member matches InterfaceMemberView::Method(method) && method.sig.asyncness
}

/// Whether an interface has an asynchronous method.
pub open spec fn has_async(members: Seq<InterfaceMemberView>) -> bool {
    exists|i: int| 0 <= i < members.len() && is_async(#[trigger] members[i])
}

/// Why a member is refused, if it is: a method by its signature, and any
/// member that is neither a method nor an associated type.
pub open spec fn failure(member: InterfaceMemberView) -> Option<RewriteError> {
    match member {
        InterfaceMemberView::Method(method) => if malformed(method.sig) {
            Some(RewriteError::MalformedSignature)
        } else {
            None
        },
        InterfaceMemberView::AssociatedType { .. } => None,
        InterfaceMemberView::Other(_) => Some(RewriteError::UnsupportedMember),
    }
}

/// The name of the type that stands in for an interface.
pub open spec fn stand_in_name(name: Seq<char>) -> Seq<char> {
    "Mock"@ + name
}

/// The type whose methods the stand-in holds: named as the stand-in in code,
/// as the interface to a reader.
pub open spec fn target_of(interface: InterfaceDeclarationView) -> TargetView {
    TargetView { path: stand_in_name(interface.name), label: interface.name }
}

/// The body of a method to which the interface gives none: it stops the
/// program and says for which interface no behaviour was found.
pub open spec fn fallback_body(name: Seq<char>) -> Seq<char> {
    "panic!("@ + string_literal("mock not found for "@ + name) + ")"@
}

/// A method of an interface as the stand-in has it: with the body that the
/// interface gives it, or else the fallback, and with the paths to the
/// associated types of the interface written out in full.
pub open spec fn as_method(
    interface: InterfaceDeclarationView,
    method: InterfaceMethodView,
) -> MethodView {
    MethodView {
        attrs: method.attrs,
        vis: VisibilityView::Inherited,
        sig: qualified_signature(
            method.sig,
            seq![interface.name],
            associated_names(interface.members),
        ),
        body: match method.default {
            Some(body) => body,
            None => fallback_body(interface.name),
        },
    }
}

/// What a member becomes in the implementation of the interface.
pub open spec fn member_text(
    interface: InterfaceDeclarationView,
    member: InterfaceMemberView,
) -> Seq<char> {
    match member {
        InterfaceMemberView::Method(method) => instrumented_text(
            hooks_for(method.sig),
            target_of(interface),
            as_method(interface, method),
        ),
        InterfaceMemberView::AssociatedType { text, .. } => text,
        InterfaceMemberView::Other(text) => text,
    }
}

/// What a member adds to the block of locators.
pub open spec fn member_locator(
    interface: InterfaceDeclarationView,
    member: InterfaceMemberView,
) -> Seq<char> {
    match member {
        InterfaceMemberView::Method(method) => locator_text(
            hooks_for(method.sig),
            target_of(interface),
            as_method(interface, method),
        ),
        _ => Seq::empty(),
    }
}

/// The members as they stand in the implementation of the interface.
pub open spec fn member_texts(interface: InterfaceDeclarationView) -> Seq<Seq<char>> {
    Seq::new(interface.members.len(), |i: int| member_text(interface, interface.members[i]))
}

/// What the members add to the block of locators.
pub open spec fn member_locators(interface: InterfaceDeclarationView) -> Seq<Seq<char>> {
    Seq::new(interface.members.len(), |i: int| member_locator(interface, interface.members[i]))
}

/// The declaration of the stand-in: a record that holds its identity, as
/// visible as the interface.
pub open spec fn stand_in_text(interface: InterfaceDeclarationView) -> Seq<char> {
    "#[derive(Default, Clone)] "@ + visibility_text(interface.vis) + "struct "@ + stand_in_name(
        interface.name,
    ) + " { pub mry: mry::Mry, }"@
}

/// The attribute that an implementation with asynchronous methods needs.
pub open spec fn async_marker(members: Seq<InterfaceMemberView>) -> Seq<char> {
    if has_async(members) {
        "#[async_trait::async_trait] "@
    } else {
        Seq::empty()
    }
}

/// The implementation of the interface for the stand-in.
pub open spec fn implementation_text(interface: InterfaceDeclarationView) -> Seq<char> {
    async_marker(interface.members) + "impl"@ + generics_text(interface.generics) + " "@
        + interface.name + " for "@ + stand_in_name(interface.name) + " { "@ + join(
        member_texts(interface),
        " "@,
    ) + " }"@
}

/// The block of the stand-in that holds the locators.
pub open spec fn locators_text(interface: InterfaceDeclarationView) -> Seq<char> {
    "impl "@ + stand_in_name(interface.name) + " { "@ + join(member_locators(interface), " "@)
        + " }"@
}

/// The four declarations that an interface becomes: the interface as it is
/// written, the stand-in, its implementation of the interface, and its
/// locators.
pub open spec fn interface_text(interface: InterfaceDeclarationView) -> Seq<char> {
    interface.source + " "@ + stand_in_text(interface) + " "@ + implementation_text(interface)
        + " "@ + locators_text(interface)
}

/// The interface stands first in what it becomes, as it was written,
/// character for character, with all its members.
pub proof fn interface_kept(interface: InterfaceDeclarationView)
    ensures
        interface_text(interface).len() >= interface.source.len(),
        interface_text(interface).subrange(0, interface.source.len() as int)
            == interface.source,
{
    let rest = " "@ + stand_in_text(interface) + " "@ + implementation_text(interface) + " "@
        + locators_text(interface);
    assert(interface_text(interface) =~= interface.source + rest);
    assert((interface.source + rest).subrange(0, interface.source.len() as int)
        =~= interface.source);
}

/// An associated type of the interface is put into the implementation as it
/// was written, and adds nothing to the block of locators.
pub proof fn associated_type_passed_through(interface: InterfaceDeclarationView, i: int)
    requires
        0 <= i < interface.members.len(),
        interface.members[i] is AssociatedType,
    ensures
        member_text(interface, interface.members[i]) == interface.members[i]->text,
        member_locator(interface, interface.members[i]) == Seq::<char>::empty(),
        occurs_in(interface.members[i]->text, implementation_text(interface)),
{
    let part = interface.members[i]->text;
    let texts = member_texts(interface);
    assert(texts[i] == part);
    lemma_join_holds_part(texts, " "@, i);
    let before = async_marker(interface.members) + "impl"@ + generics_text(interface.generics)
        + " "@ + interface.name + " for "@ + stand_in_name(interface.name) + " { "@;
    lemma_occurs_within(part, before, join(texts, " "@), " }"@);
    assert(before + join(texts, " "@) + " }"@ =~= implementation_text(interface));
}

fn collect_associated(members: &Vec<InterfaceMember>) -> (r: Vec<String>)
    ensures
        views(r@) == associated_names(views(members@)),
{
    let ghost pick = |member: InterfaceMemberView| associated_name(member);
    let mut names: Vec<String> = Vec::new();
    let mut i: usize = 0;
    while i < members.len()
        invariant
            i <= members.len(),
            pick == |member: InterfaceMemberView| associated_name(member),
            views(names@) == views(members@).take(i as int).filter_map(pick),
        decreases members.len() - i,
    {
        proof {
            lemma_take_push(views(members@), i as int);
        }
        match &members[i] {
            InterfaceMember::AssociatedType { name, .. } => {
                proof {
                    lemma_views_push(names@, *name);
                    assert(views(names@).push(name@) =~= views(names@) + seq![name@]);
                }
                names.push(name.clone());
            },
            _ => {},
        }
        i += 1;
    }
    assert(views(members@).take(members.len() as int) =~= views(members@));
    names
}

fn find_async(members: &Vec<InterfaceMember>) -> (r: bool)
    ensures
        r == has_async(views(members@)),
{
    let mut i: usize = 0;
    while i < members.len()
        invariant
            i <= members.len(),
            forall|j: int| 0 <= j < i ==> !is_async(#[trigger] views(members@)[j]),
        decreases members.len() - i,
    {
        match &members[i] {
            InterfaceMember::Method(method) => {
                if method.sig.asyncness {
                    assert(is_async(views(members@)[i as int]));
                    return true;
                }
            },
            _ => {},
        }
        i += 1;
    }
    false
}

fn render_stand_in_name(name: &String) -> (r: String)
    ensures
        r@ == stand_in_name(name@),
{
    let mut out = "Mock".to_owned();
    out.append(name.as_str());
    out
}

fn render_fallback(name: &String) -> (r: String)
    ensures
        r@ == fallback_body(name@),
{
    let mut message = "mock not found for ".to_owned();
    message.append(name.as_str());
    let mut out = "panic!(".to_owned();
    out.append(quote_text(message.as_str()).as_str());
    out.append(")");
    out
}

fn render_stand_in(interface: &InterfaceDeclaration) -> (r: String)
    ensures
        r@ == stand_in_text(interface@),
{
    let mut out = "#[derive(Default, Clone)] ".to_owned();
    out.append(interface.vis.render().as_str());
    out.append("struct ");
    out.append(render_stand_in_name(&interface.name).as_str());
    out.append(" { pub mry: mry::Mry, }");
    out
}

fn rewrite_member(
    interface: &InterfaceDeclaration,
    target: &Target,
    own: &TypeExpr,
    associated: &Vec<String>,
    member: &InterfaceMember,
) -> (r: Result<(String, String), RewriteError>)
    requires
        own@ == seq![interface@.name],
        target@ == target_of(interface@),
        views(associated@) == associated_names(interface@.members),
    ensures
        match r {
            Ok(pair) => {
                &&& failure(member@) is None
                &&& pair.0@ == member_text(interface@, member@)
                &&& pair.1@ == member_locator(interface@, member@)
            },
            Err(error) => failure(member@) == Some(error),
        },
{
    match member {
        InterfaceMember::Method(method) => {
            let hooks = Hooks::of(&method.sig);
            let full = Method {
                attrs: method.attrs.clone(),
                vis: Visibility::Inherited,
                sig: qualify_signature(&method.sig, own, associated),
                body: match &method.default {
                    Some(body) => body.clone(),
                    None => render_fallback(&interface.name),
                },
            };
            proof {
                lemma_qualified_shape(method@.sig, own@, views(associated@));
                assert(full@ == as_method(interface@, method@));
            }
            rewrite(&hooks, target, &full)
        },
        InterfaceMember::AssociatedType { text, .. } => Ok((text.clone(), String::new())),
        InterfaceMember::Other(_) => Err(RewriteError::UnsupportedMember),
    }
}

fn rewrite_members(interface: &InterfaceDeclaration) -> (r: Result<
    (Vec<String>, Vec<String>),
    RewriteError,
>)
    ensures
        match r {
            Ok(lists) => {
                &&& forall|i: int|
                    0 <= i < interface@.members.len() ==> failure(
                        #[trigger] interface@.members[i],
                    ) is None
                &&& views(lists.0@) == member_texts(interface@)
                &&& views(lists.1@) == member_locators(interface@)
            },
            Err(error) => exists|i: int|
                {
                    &&& 0 <= i < interface@.members.len()
                    &&& failure(#[trigger] interface@.members[i]) == Some(error)
                    &&& forall|j: int|
                        0 <= j < i ==> failure(#[trigger] interface@.members[j]) is None
                },
        },
{
    let mut path: Vec<String> = Vec::new();
    push_text(&mut path, interface.name.as_str());
    let own = TypeExpr { tokens: path };
    assert(own@ =~= seq![interface@.name]);
    let target = Target {
        path: render_stand_in_name(&interface.name),
        label: interface.name.clone(),
    };
    let associated = collect_associated(&interface.members);
    let mut texts: Vec<String> = Vec::new();
    let mut locators: Vec<String> = Vec::new();
    let mut i: usize = 0;
    while i < interface.members.len()
        invariant
            i <= interface.members.len(),
            own@ == seq![interface@.name],
            target@ == target_of(interface@),
            views(associated@) == associated_names(interface@.members),
            forall|j: int| 0 <= j < i ==> failure(#[trigger] interface@.members[j]) is None,
            views(texts@) == member_texts(interface@).take(i as int),
            views(locators@) == member_locators(interface@).take(i as int),
        decreases interface.members.len() - i,
    {
        match rewrite_member(interface, &target, &own, &associated, &interface.members[i]) {
            Ok((text, locator)) => {
                proof {
                    lemma_views_push(texts@, text);
                    lemma_views_push(locators@, locator);
                    lemma_take_push(member_texts(interface@), i as int);
                    lemma_take_push(member_locators(interface@), i as int);
                }
                texts.push(text);
                locators.push(locator);
            },
            Err(error) => {
                assert(failure(interface@.members[i as int]) == Some(error));
                return Err(error);
            },
        }
        i += 1;
    }
    proof {
        assert(member_texts(interface@).take(interface.members.len() as int) =~= member_texts(
            interface@,
        ));
        assert(member_locators(interface@).take(interface.members.len() as int)
            =~= member_locators(interface@));
    }
    Ok((texts, locators))
}

fn render_implementation(interface: &InterfaceDeclaration, texts: &Vec<String>) -> (r: String)
    requires
        views(texts@) == member_texts(interface@),
    ensures
        r@ == implementation_text(interface@),
{
    let mut out = if find_async(&interface.members) {
        "#[async_trait::async_trait] ".to_owned()
    } else {
        String::new()
    };
    out.append("impl");
    out.append(render_generics(&interface.generics).as_str());
    out.append(" ");
    out.append(interface.name.as_str());
    out.append(" for ");
    out.append(render_stand_in_name(&interface.name).as_str());
    out.append(" { ");
    out.append(join_text(texts, " ").as_str());
    out.append(" }");
    out
}

fn render_locators(interface: &InterfaceDeclaration, locators: &Vec<String>) -> (r: String)
    requires
        views(locators@) == member_locators(interface@),
    ensures
        r@ == locators_text(interface@),
{
    let mut out = "impl ".to_owned();
    out.append(render_stand_in_name(&interface.name).as_str());
    out.append(" { ");
    out.append(join_text(locators, " ").as_str());
    out.append(" }");
    out
}

/// Rewrites an interface. The interface stays as it is written. Beside it
/// stands a record that holds an identity and nothing else, as visible as the
/// interface and named `Mock` and the interface's name. It implements the
/// interface: every method gets its guard before the body that the interface
/// gives it or, where it gives none, before the fallback. The locators stand
/// in a block of their own. An interface with a member that is refused is not
/// rewritten; the first such member in the order of the declaration says why.
pub fn transform(interface: &InterfaceDeclaration) -> (r: Result<String, RewriteError>)
    ensures
        match r {
            Ok(text) => {
                &&& forall|i: int|
                    0 <= i < interface@.members.len() ==> failure(
                        #[trigger] interface@.members[i],
                    ) is None
                &&& text@ == interface_text(interface@)
            },
            Err(error) => exists|i: int|
                {
                    &&& 0 <= i < interface@.members.len()
                    &&& failure(#[trigger] interface@.members[i]) == Some(error)
                    &&& forall|j: int|
                        0 <= j < i ==> failure(#[trigger] interface@.members[j]) is None
                },
        },
{
    match rewrite_members(interface) {
        Ok((texts, locators)) => {
            let mut out = interface.source.clone();
            out.append(" ");
            out.append(render_stand_in(interface).as_str());
            out.append(" ");
            out.append(render_implementation(interface, &texts).as_str());
            out.append(" ");
            out.append(render_locators(interface, &locators).as_str());
            Ok(out)
        },
        Err(error) => Err(error),
    }
}

} // verus!
