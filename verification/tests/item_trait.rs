use mry_macros::error::RewriteError;
use mry_macros::item_trait::{transform, InterfaceDeclaration, InterfaceMember, InterfaceMethod};
use mry_macros::syntax::{
    Input, Parameter, Pattern, Receiver, Signature, TypeExpr, Visibility,
};
use proc_macro2::{Delimiter, TokenStream, TokenTree};
use std::str::FromStr;

fn flatten(stream: TokenStream, out: &mut Vec<String>) {
    for tree in stream {
        match tree {
            TokenTree::Group(group) => {
                let (open, close) = match group.delimiter() {
                    Delimiter::Parenthesis => ("(", ")"),
                    Delimiter::Brace => ("{", "}"),
                    Delimiter::Bracket => ("[", "]"),
                    Delimiter::None => ("", ""),
                };
                out.push(open.to_string());
                flatten(group.stream(), out);
                out.push(close.to_string());
            }
            TokenTree::Punct(punct) => out.push(punct.as_char().to_string()),
            other => out.push(other.to_string()),
        }
    }
}

/// The tokens of a piece of source, whatever its spacing.
fn tokens(text: &str) -> Vec<String> {
    let mut out = Vec::new();
    flatten(TokenStream::from_str(text).unwrap(), &mut out);
    out
}

fn ty(text: &str) -> TypeExpr {
    TypeExpr { tokens: text.split_whitespace().map(str::to_string).collect() }
}

fn typed(attrs: &str, pattern: Pattern, text: &str) -> Input {
    Input::Typed(Parameter { attrs: attrs.to_string(), pattern, ty: ty(text) })
}

fn named(name: &str, text: &str) -> Input {
    typed("", Pattern::Ident(name.to_string()), text)
}

fn receiver(attrs: &str, scope: Option<&str>, mutable: bool) -> Input {
    Input::Receiver(Receiver {
        attrs: attrs.to_string(),
        reference: true,
        scope: scope.map(str::to_string),
        mutable,
    })
}

fn by_reference() -> Input {
    receiver("", None, false)
}

fn signature(name: &str, inputs: Vec<Input>, output: Option<&str>) -> Signature {
    Signature {
        asyncness: false,
        name: name.to_string(),
        generics: Vec::new(),
        inputs,
        output: output.map(ty),
    }
}

fn method(sig: Signature, default: Option<&str>) -> InterfaceMember {
    InterfaceMember::Method(InterfaceMethod {
        attrs: String::new(),
        sig,
        default: default.map(str::to_string),
    })
}

fn interface(source: &str, vis: Visibility, members: Vec<InterfaceMember>) -> InterfaceDeclaration {
    InterfaceDeclaration {
        source: source.to_string(),
        vis,
        name: "Cat".to_string(),
        generics: Vec::new(),
        members,
    }
}

fn meow() -> Signature {
    signature("meow", vec![by_reference(), named("count", "usize")], Some("String"))
}

#[test]
fn add_mry_object() {
    let input = interface(
        "trait Cat { fn meow(&self, count: usize) -> String; }",
        Visibility::Inherited,
        vec![method(meow(), None)],
    );

    assert_eq!(
        tokens(&transform(&input).unwrap()),
        tokens(
            r#"
            trait Cat {
                fn meow(&self, count: usize) -> String;
            }

            #[derive(Default, Clone)]
            struct MockCat {
                pub mry : mry::Mry,
            }

            impl Cat for MockCat {
                fn meow(&self, count: usize) -> String {
                    if let Some(out) = self.mry.record_call_and_find_mock_output(std::any::Any::type_id(&MockCat::meow), "Cat::meow", (count)) {
                        return out;
                    }
                    panic!("mock not found for Cat")
                }
            }

            impl MockCat {
                fn mock_meow<'mry>(&'mry mut self, arg0: impl Into<mry::Matcher<usize> >) -> mry::MockLocator<'mry, (usize), String, mry::Behavior1<(usize), String> > {
                    mry::MockLocator {
                        mocks: self.mry.mocks_write(),
                        key: std::any::Any::type_id(&MockCat::meow),
                        name: "Cat::meow",
                        matcher: Some((arg0.into(),).into()),
                        _phantom: Default::default(),
                    }
                }
            }
            "#
        )
    );
}

#[test]
fn respects_attributes_and_visibility() {
    let input = interface(
        "pub trait Cat { fn meow(&self, count: usize) -> String; }",
        Visibility::Public,
        vec![method(meow(), None)],
    );

    assert_eq!(
        tokens(&transform(&input).unwrap()),
        tokens(
            r#"
            pub trait Cat {
                fn meow(&self, count: usize) -> String;
            }

            #[derive(Default, Clone)]
            pub struct MockCat {
                pub mry : mry::Mry,
            }

            impl Cat for MockCat {
                fn meow(&self, count: usize) -> String {
                    if let Some(out) = self.mry.record_call_and_find_mock_output(std::any::Any::type_id(&MockCat::meow), "Cat::meow", (count)) {
                        return out;
                    }
                    panic!("mock not found for Cat")
                }
            }

            impl MockCat {
                fn mock_meow<'mry>(&'mry mut self, arg0: impl Into<mry::Matcher<usize> >) -> mry::MockLocator<'mry, (usize), String, mry::Behavior1<(usize), String> > {
                    mry::MockLocator {
                        mocks: self.mry.mocks_write(),
                        key: std::any::Any::type_id(&MockCat::meow),
                        name: "Cat::meow",
                        matcher: Some((arg0.into(),).into()),
                        _phantom: Default::default(),
                    }
                }
            }
            "#
        )
    );
}

#[test]
fn supports_async_trait() {
    let mut sig = meow();
    sig.asyncness = true;
    let input = interface(
        "#[async_trait::async_trait] trait Cat { async fn meow(&self, count: usize) -> String; }",
        Visibility::Inherited,
        vec![method(sig, None)],
    );

    assert_eq!(
        tokens(&transform(&input).unwrap()),
        tokens(
            r#"
            #[async_trait::async_trait]
            trait Cat {
                async fn meow(&self, count: usize) -> String;
            }

            #[derive(Default, Clone)]
            struct MockCat {
                pub mry : mry::Mry,
            }

            #[async_trait::async_trait]
            impl Cat for MockCat {
                async fn meow(&self, count: usize) -> String {
                    if let Some(out) = self.mry.record_call_and_find_mock_output(std::any::Any::type_id(&MockCat::meow), "Cat::meow", (count)) {
                        return out;
                    }
                    panic!("mock not found for Cat")
                }
            }

            impl MockCat {
                fn mock_meow<'mry>(&'mry mut self, arg0: impl Into<mry::Matcher<usize> >) -> mry::MockLocator<'mry, (usize), String, mry::Behavior1<(usize), String> > {
                    mry::MockLocator {
                        mocks: self.mry.mocks_write(),
                        key: std::any::Any::type_id(&MockCat::meow),
                        name: "Cat::meow",
                        matcher: Some((arg0.into(),).into()),
                        _phantom: Default::default(),
                    }
                }
            }
            "#
        )
    );
}

#[test]
fn interface_with_associated_type() {
    let source = "trait Cat { type Item; fn next(&self) -> Option<Self::Item>; }";
    let input = interface(
        source,
        Visibility::Inherited,
        vec![
            InterfaceMember::AssociatedType {
                name: "Item".to_string(),
                text: "type Item;".to_string(),
            },
            method(signature("next", vec![by_reference()], Some("Option < Self :: Item >")), None),
        ],
    );
    let text = transform(&input).unwrap();
    assert!(text.starts_with(source));
    let all = tokens(&text);
    let rewritten = tokens("fn next(&self, ) -> Option< <Self as Cat>::Item >");
    assert!(all.windows(rewritten.len()).any(|window| window == rewritten.as_slice()));
    let locator = tokens(
        "fn mock_next<'mry>(&'mry mut self, ) -> mry::MockLocator<'mry, (), Option< <Self as Cat>::Item >, mry::Behavior0<(), Option< <Self as Cat>::Item > > >",
    );
    assert!(all.windows(locator.len()).any(|window| window == locator.as_slice()));
}

#[test]
fn default_body_is_kept() {
    let input = interface(
        "trait Cat { fn meow(&self, count: usize) -> String { \"meow\".repeat(count) } }",
        Visibility::Restricted("crate".to_string()),
        vec![method(meow(), Some("{ \"meow\".repeat(count) }"))],
    );
    let all = tokens(&transform(&input).unwrap());
    let body = tokens("{ return out; } { \"meow\".repeat(count) }");
    assert!(all.windows(body.len()).any(|window| window == body.as_slice()));
    assert!(!all.contains(&"panic".to_string()));
    let stand_in = tokens("#[derive(Default, Clone)] pub(crate) struct MockCat");
    assert!(all.windows(stand_in.len()).any(|window| window == stand_in.as_slice()));
}

#[test]
fn other_members_are_refused() {
    let input = interface(
        "trait Cat { const LEGS: u8; fn meow(&self, count: usize) -> String; }",
        Visibility::Inherited,
        vec![InterfaceMember::Other("const LEGS: u8;".to_string()), method(meow(), None)],
    );
    assert_eq!(transform(&input), Err(RewriteError::UnsupportedMember));
}

#[test]
fn first_refused_member_says_why() {
    let broken = signature("broken", vec![named("a", "u8"), by_reference()], None);
    let first = interface(
        "",
        Visibility::Inherited,
        vec![method(broken.clone(), None), InterfaceMember::Other("const LEGS: u8;".to_string())],
    );
    assert_eq!(transform(&first), Err(RewriteError::MalformedSignature));
    let second = interface(
        "",
        Visibility::Inherited,
        vec![InterfaceMember::Other("const LEGS: u8;".to_string()), method(broken, None)],
    );
    assert_eq!(transform(&second), Err(RewriteError::UnsupportedMember));
}
