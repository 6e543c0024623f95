use mry_macros::error::RewriteError;
use mry_macros::item_impl::{transform, Member, MethodBlock};
use mry_macros::syntax::{
    GenericKind, GenericParam, Input, Method, Parameter, Pattern, Receiver, Signature, TypeExpr,
    Visibility,
};
use proc_macro2::{Delimiter, TokenStream, TokenTree};
use std::str::FromStr;

fn flatten(stream: TokenStream, out: &mut Vec<String>) {
    for tree in stream {
        match tree {
            TokenTree::Group(group) => {
                let (open, close) = match group.delimiter() {
                    Delimiter::Parenthesis => ("(", ")"),
                    Delimiter::Brace => ("{", "}"),
                    Delimiter::Bracket => ("[", "]"),
                    Delimiter::None => ("", ""),
                };
                out.push(open.to_string());
                flatten(group.stream(), out);
                out.push(close.to_string());
            }
            TokenTree::Punct(punct) => out.push(punct.as_char().to_string()),
            other => out.push(other.to_string()),
        }
    }
}

/// The tokens of a piece of source, whatever its spacing.
fn tokens(text: &str) -> Vec<String> {
    let mut out = Vec::new();
    flatten(TokenStream::from_str(text).unwrap(), &mut out);
    out
}

fn ty(text: &str) -> TypeExpr {
    TypeExpr { tokens: text.split_whitespace().map(str::to_string).collect() }
}

fn typed(attrs: &str, pattern: Pattern, text: &str) -> Input {
    Input::Typed(Parameter { attrs: attrs.to_string(), pattern, ty: ty(text) })
}

fn named(name: &str, text: &str) -> Input {
    typed("", Pattern::Ident(name.to_string()), text)
}

fn receiver(attrs: &str, scope: Option<&str>, mutable: bool) -> Input {
    Input::Receiver(Receiver {
        attrs: attrs.to_string(),
        reference: true,
        scope: scope.map(str::to_string),
        mutable,
    })
}

fn by_reference() -> Input {
    receiver("", None, false)
}

fn signature(name: &str, inputs: Vec<Input>, output: Option<&str>) -> Signature {
    Signature {
        asyncness: false,
        name: name.to_string(),
        generics: Vec::new(),
        inputs,
        output: output.map(ty),
    }
}

fn generic(kind: GenericKind, name: &str, text: &str) -> GenericParam {
    GenericParam { kind, name: name.to_string(), text: text.to_string() }
}

fn method(attrs: &str, sig: Signature, body: &str) -> Member {
    Member::Method(Method {
        attrs: attrs.to_string(),
        vis: Visibility::Inherited,
        sig,
        body: body.to_string(),
    })
}

fn block(interface: Option<&str>, self_ty: &str, members: Vec<Member>) -> MethodBlock {
    MethodBlock { generics: Vec::new(), interface: interface.map(ty), self_ty: ty(self_ty), members }
}

#[test]
fn keeps_attributes() {
    let input = block(
        None,
        "Cat",
        vec![method(
            "#[meow] #[meow]",
            signature(
                "meow",
                vec![
                    receiver("#[a]", None, false),
                    typed("#[b]", Pattern::Ident("count".to_string()), "usize"),
                ],
                Some("String"),
            ),
            "\"meow\".repeat(count)",
        )],
    );

    assert_eq!(
        tokens(&transform(&input).unwrap()),
        tokens(
            r#"
            impl Cat {
                #[meow]
                #[meow]
                fn meow(#[a] &self, #[b] count: usize) -> String {
                    if let Some(out) = self.mry.record_call_and_find_mock_output(std::any::Any::type_id(&Cat::meow), "Cat::meow", (count)) {
                        return out;
                    }
                    "meow".repeat(count)
                }
            }

            impl Cat {
                fn mock_meow<'mry>(&'mry mut self, arg0: impl Into<mry::Matcher<usize> >) -> mry::MockLocator<'mry, (usize), String, mry::Behavior1<(usize), String> > {
                    mry::MockLocator {
                        mocks: self.mry.mocks_write(),
                        key: std::any::Any::type_id(&Cat::meow),
                        name: "Cat::meow",
                        matcher: Some((arg0.into(),).into()),
                        _phantom: Default::default(),
                    }
                }
            }
            "#
        )
    );
}

#[test]
fn support_generics() {
    let mut sig = signature(
        "meow",
        vec![receiver("", Some("'a"), false), named("count", "usize")],
        Some("B"),
    );
    sig.generics = vec![
        generic(GenericKind::Lifetime, "'a", "'a"),
        generic(GenericKind::Type, "B", "B"),
    ];
    let mut input = block(None, "Cat < 'a , A >", vec![method("", sig, "\"meow\".repeat(count)")]);
    input.generics = vec![
        generic(GenericKind::Lifetime, "'a", "'a"),
        generic(GenericKind::Type, "A", "A: Clone"),
    ];

    assert_eq!(
        tokens(&transform(&input).unwrap()),
        tokens(
            r#"
            impl<'a, A: Clone> Cat<'a, A> {
                fn meow<'a, B>(&'a self, count: usize) -> B {
                    if let Some(out) = self.mry.record_call_and_find_mock_output(std::any::Any::type_id(&Cat<'a, A>::meow), "Cat<'a, A>::meow", (count)) {
                        return out;
                    }
                    "meow".repeat(count)
                }
            }

            impl <'a, A: Clone> Cat<'a, A> {
                fn mock_meow<'mry>(&'mry mut self, arg0: impl Into<mry::Matcher<usize> >) -> mry::MockLocator<'mry, (usize), B, mry::Behavior1<(usize), B> > {
                    mry::MockLocator {
                        mocks: self.mry.mocks_write(),
                        key: std::any::Any::type_id(&Cat<'a, A>::meow),
                        name: "Cat<'a, A>::meow",
                        matcher: Some((arg0.into(),).into()),
                        _phantom: Default::default(),
                    }
                }
            }
            "#
        )
    );
}

#[test]
fn support_trait() {
    let mut input = block(
        Some("Animal < A >"),
        "Cat",
        vec![method("", signature("name", vec![by_reference()], Some("String")), "self.name")],
    );
    input.generics = vec![generic(GenericKind::Type, "A", "A: Clone")];

    assert_eq!(
        tokens(&transform(&input).unwrap()),
        tokens(
            r#"
            impl<A: Clone> Animal<A> for Cat {
                fn name(&self, ) -> String {
                    if let Some(out) = self.mry.record_call_and_find_mock_output(std::any::Any::type_id(&<Cat as Animal<A> >::name), "<Cat as Animal<A>>::name", ()) {
                        return out;
                    }
                    self.name
                }
            }

            impl Cat {
                fn mock_name<'mry>(&'mry mut self,) -> mry::MockLocator<'mry, (), String, mry::Behavior0<(), String> > {
                    mry::MockLocator {
                        mocks: self.mry.mocks_write(),
                        key: std::any::Any::type_id(&< Cat as Animal < A > >::name),
                        name: "<Cat as Animal<A>>::name",
                        matcher: Some(().into()),
                        _phantom: Default::default(),
                    }
                }
            }
            "#
        )
    );
}

#[test]
fn support_trait_with_associated_type() {
    let input = block(
        Some("Iterator"),
        "Cat",
        vec![
            Member::AssociatedType {
                name: "Item".to_string(),
                text: "type Item = String;".to_string(),
            },
            method(
                "",
                signature("next", vec![by_reference()], Some("Option < Self :: Item >")),
                "Some(self.name)",
            ),
        ],
    );

    assert_eq!(
        tokens(&transform(&input).unwrap()),
        tokens(
            r#"
            impl Iterator for Cat {
                type Item = String;
                fn next(&self, ) -> Option< <Self as Iterator>::Item> {
                    if let Some(out) = self.mry.record_call_and_find_mock_output(std::any::Any::type_id(&<Cat as Iterator>::next), "<Cat as Iterator>::next", ()) {
                        return out;
                    }
                    Some(self.name)
                }
            }

            impl Cat {
                fn mock_next<'mry>(&'mry mut self,) -> mry::MockLocator<'mry, (), Option< <Self as Iterator>::Item >, mry::Behavior0<(), Option< <Self as Iterator>::Item> > > {
                    mry::MockLocator {
                        mocks: self.mry.mocks_write(),
                        key: std::any::Any::type_id(&<Cat as Iterator>::next),
                        name: "<Cat as Iterator>::next",
                        matcher: Some(().into()),
                        _phantom: Default::default(),
                    }
                }
            }
            "#
        )
    );
}

#[test]
fn item_impl_support_associated_functions() {
    let input = block(
        None,
        "Cat",
        vec![method(
            "",
            signature("meow", vec![named("count", "usize")], Some("String")),
            "\"meow\".repeat(count)",
        )],
    );

    assert_eq!(
        tokens(&transform(&input).unwrap()),
        tokens(
            r#"
            impl Cat {
                fn meow(count: usize) -> String {
                    if let Some(out) = mry::STATIC_MOCKS.write().record_call_and_find_mock_output(std::any::Any::type_id(&Cat::meow), "Cat::meow", (count)) {
                        return out;
                    }
                    "meow".repeat(count)
                }
            }

            impl Cat {
                fn mock_meow<'mry>(arg0: impl Into<mry::Matcher<usize> >) -> mry::MockLocator<'mry, (usize), String, mry::Behavior1<(usize), String> > {
                    mry::MockLocator {
                        mocks: Box::new(mry::STATIC_MOCKS.write()),
                        key: std::any::Any::type_id(&Cat::meow),
                        name: "Cat::meow",
                        matcher: Some((arg0.into(), ).into()),
                        _phantom: Default::default(),
                    }
                }
            }
            "#
        )
    );
}

#[test]
fn static_method_identify() {
    let input = block(
        None,
        "Cat",
        vec![method(
            "",
            signature("identify", vec![named("count", "usize")], Some("String")),
            "count.to_string()",
        )],
    );
    let all = tokens(&transform(&input).unwrap());
    assert!(!all.contains(&"self".to_string()));
    let guard = tokens("mry::STATIC_MOCKS.write().record_call_and_find_mock_output");
    assert!(all.windows(guard.len()).any(|window| window == guard.as_slice()));
    let locator = tokens("fn mock_identify<'mry>(arg0: impl Into<mry::Matcher<usize> >)");
    assert!(all.windows(locator.len()).any(|window| window == locator.as_slice()));
}

#[test]
fn members_that_are_no_methods_are_kept() {
    let constant = "const LEGS: u8 = 4;";
    let nested = "fn_like!{ a , b }";
    let input = block(
        Some("Animal"),
        "Cat",
        vec![
            Member::Other(constant.to_string()),
            Member::AssociatedType {
                name: "Food".to_string(),
                text: "type Food = Self::Item;".to_string(),
            },
            Member::Other(nested.to_string()),
        ],
    );
    let text = transform(&input).unwrap();
    assert!(text.contains(constant));
    assert!(text.contains("type Food = Self::Item;"));
    assert!(text.contains(nested));
    assert_eq!(
        tokens(&text),
        tokens(
            "impl Animal for Cat { const LEGS: u8 = 4; type Food = Self::Item; fn_like!{ a , b } } impl Cat { }"
        )
    );
}

#[test]
fn generics_of_the_second_block_are_those_of_the_type() {
    let mut input = block(Some("Animal < A , 'b >"), "Cat < C , N >", vec![]);
    input.generics = vec![
        generic(GenericKind::Type, "A", "A: Clone"),
        generic(GenericKind::Lifetime, "'b", "'b"),
        generic(GenericKind::Type, "C", "C"),
        generic(GenericKind::Const, "N", "const N: usize"),
    ];
    assert_eq!(
        tokens(&transform(&input).unwrap()),
        tokens(
            "impl<A: Clone, 'b, C, const N: usize> Animal<A, 'b> for Cat<C, N> { } impl<C, const N: usize> Cat<C, N> { }"
        )
    );
}

#[test]
fn only_paths_to_associated_types_are_written_out() {
    let input = block(
        Some("Animal"),
        "Cat",
        vec![
            Member::AssociatedType { name: "Food".to_string(), text: "type Food = Fish;".to_string() },
            method(
                "",
                signature(
                    "eat",
                    vec![
                        by_reference(),
                        named("food", "& Self :: Food"),
                        named("other", "Self :: Toy"),
                        named("done", "< Self as Animal > :: Food"),
                        named("more", "Vec < ( Self :: Food :: Part , Self ) >"),
                    ],
                    None,
                ),
                "",
            ),
        ],
    );
    let all = tokens(&transform(&input).unwrap());
    let wanted = tokens(
        "fn eat(&self, food: &<Self as Animal>::Food, other: Self::Toy, done: <Self as Animal>::Food, more: Vec<(<Self as Animal>::Food::Part, Self)>) -> ()",
    );
    assert!(all.windows(wanted.len()).any(|window| window == wanted.as_slice()));
    let kept = tokens("(<Self as Animal>::Food, Self::Toy, <Self as Animal>::Food, Vec<(<Self as Animal>::Food::Part, Self)>)");
    assert!(all.windows(kept.len()).any(|window| window == kept.as_slice()));
}

#[test]
fn block_with_a_refused_method_is_not_rewritten() {
    let input = block(
        None,
        "Cat",
        vec![
            method("", signature("fine", vec![by_reference()], None), ""),
            method("", signature("broken", vec![named("a", "u8"), by_reference()], None), ""),
        ],
    );
    assert_eq!(transform(&input), Err(RewriteError::MalformedSignature));
}
