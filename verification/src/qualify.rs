//! Paths to associated types, made independent of the block they stand in.
//!
//! Inside the implementation of an interface `Self::Item` names an associated
//! type of that interface. Outside of it the path says nothing, so it is
//! written out in full: `<Self as Interface>::Item`.

use crate::syntax::{
    Input, InputView, Parameter, ParameterView, Signature, SignatureView, TypeExpr,
    copy_generics,
};
use crate::text::{lemma_take_push, lemma_views_push, push_all, push_text, views};
use vstd::prelude::*;

verus! {

/// Whether the tokens begin with `Self::` and the name of an associated type.
pub open spec fn starts_self_path(tokens: Seq<Seq<char>>, associated: Seq<Seq<char>>) -> bool {
    &&& tokens.len() >= 3
    &&& tokens[0] == "Self"@
    &&& tokens[1] == "::"@
    &&& associated.contains(tokens[2])
}

/// What stands for `Self` in a path that is written out in full.
pub open spec fn qualifier(interface: Seq<Seq<char>>) -> Seq<Seq<char>> {
    seq!["<"@, "Self"@, "as"@] + interface + seq![">"@]
}

/// The tokens with every `Self::` before the name of an associated type
/// replaced by `<Self as Interface>::`. All other tokens stay as they are.
pub open spec fn qualified(
    tokens: Seq<Seq<char>>,
    interface: Seq<Seq<char>>,
    associated: Seq<Seq<char>>,
) -> Seq<Seq<char>>
    decreases tokens.len(),
{
    if tokens.len() == 0 {
        tokens
    } else if starts_self_path(tokens, associated) {
        qualifier(interface) + seq!["::"@, tokens[2]] + qualified(
            tokens.subrange(3, tokens.len() as int),
            interface,
            associated,
        )
    } else {
        seq![tokens[0]] + qualified(tokens.subrange(1, tokens.len() as int), interface, associated)
    }
}

/// Tokens that hold no `Self::` before the name of an associated type stay as
/// they are.
pub proof fn unchanged_without_self_paths(
    tokens: Seq<Seq<char>>,
    interface: Seq<Seq<char>>,
    associated: Seq<Seq<char>>,
)
    requires
        forall|i: int|
            0 <= i < tokens.len() ==> !starts_self_path(
                #[trigger] tokens.subrange(i, tokens.len() as int),
                associated,
            ),
    ensures
        qualified(tokens, interface, associated) == tokens,
    decreases tokens.len(),
{
    if tokens.len() > 0 {
        assert(tokens.subrange(0, tokens.len() as int) =~= tokens);
        let rest = tokens.subrange(1, tokens.len() as int);
        assert forall|i: int| 0 <= i < rest.len() implies !starts_self_path(
            #[trigger] rest.subrange(i, rest.len() as int),
            associated,
        ) by {
            assert(rest.subrange(i, rest.len() as int) =~= tokens.subrange(
                i + 1,
                tokens.len() as int,
            ));
        }
        unchanged_without_self_paths(rest, interface, associated);
        assert(seq![tokens[0]] + rest =~= tokens);
    }
}

/// Where no associated type is declared, nothing is written out.
pub proof fn unchanged_without_associated_types(tokens: Seq<Seq<char>>, interface: Seq<Seq<char>>)
    ensures
        qualified(tokens, interface, Seq::empty()) == tokens,
{
    unchanged_without_self_paths(tokens, interface, Seq::empty());
}

/// An input with the paths in its type written out in full.
pub open spec fn qualified_input(
    input: InputView,
    interface: Seq<Seq<char>>,
    associated: Seq<Seq<char>>,
) -> InputView {
    match input {
        InputView::Receiver(_) => input,
        InputView::Typed(parameter) => InputView::Typed(
            ParameterView { ty: qualified(parameter.ty, interface, associated), ..parameter },
        ),
    }
}

/// A signature with the paths in the types of its parameters and in its
/// return type written out in full.
pub open spec fn qualified_signature(
    sig: SignatureView,
    interface: Seq<Seq<char>>,
    associated: Seq<Seq<char>>,
) -> SignatureView {
    SignatureView {
        inputs: Seq::new(
            sig.inputs.len(),
            |i: int| qualified_input(sig.inputs[i], interface, associated),
        ),
        output: match sig.output {
            Some(ty) => Some(qualified(ty, interface, associated)),
            None => None,
        },
        ..sig
    }
}

fn same_text(token: &String, text: &str) -> (r: bool)
    ensures
        r == (token@ == text@),
{
    let wanted = text.to_owned();
    *token == wanted
}

/// Whether `token` is one of `list`.
pub fn contains_token(list: &Vec<String>, token: &String) -> (r: bool)
    ensures
        r == views(list@).contains(token@),
{
    let mut i: usize = 0;
    while i < list.len()
        invariant
            i <= list.len(),
            forall|j: int| 0 <= j < i ==> views(list@)[j] != token@,
        decreases list.len() - i,
    {
        if list[i] == *token {
            assert(views(list@)[i as int] == token@);
            return true;
        }
        i += 1;
    }
    false
}

impl TypeExpr {
    /// The type with its paths to associated types written out in full.
    pub fn qualify(&self, interface: &TypeExpr, associated: &Vec<String>) -> (r: TypeExpr)
        ensures
            r@ == qualified(self@, interface@, views(associated@)),
    {
        let n = self.tokens.len();
        let mut out: Vec<String> = Vec::new();
        let mut i: usize = 0;
        proof {
            assert(self@.subrange(0, n as int) =~= self@);
            assert(views(out@) + self@ =~= self@);
            assert(views(out@) + qualified(self@, interface@, views(associated@)) =~= qualified(
                self@,
                interface@,
                views(associated@),
            ));
        }
        while i < n
            invariant
                n == self.tokens.len(),
                i <= n,
                qualified(self@, interface@, views(associated@)) == views(out@) + qualified(
                    self@.subrange(i as int, n as int),
                    interface@,
                    views(associated@),
                ),
            decreases n - i,
        {
            let ghost rest = self@.subrange(i as int, n as int);
            let ghost before = views(out@);
            let matches = n - i >= 3 && same_text(&self.tokens[i], "Self") && same_text(
                &self.tokens[i + 1],
                "::",
            ) && contains_token(associated, &self.tokens[i + 2]);
            assert(matches == starts_self_path(rest, views(associated@)));
            if matches {
                push_text(&mut out, "<");
                push_text(&mut out, "Self");
                push_text(&mut out, "as");
                push_all(&mut out, &interface.tokens);
                push_text(&mut out, ">");
                push_text(&mut out, "::");
                proof {
                    lemma_views_push(out@, self.tokens@[i + 2]);
                    assert(rest.subrange(3, rest.len() as int) =~= self@.subrange(
                        i + 3,
                        n as int,
                    ));
                }
                out.push(self.tokens[i + 2].clone());
                proof {
                    assert(views(out@) =~= before + (qualifier(interface@) + seq![
                        "::"@,
                        rest[2],
                    ]));
                }
                i += 3;
            } else {
                proof {
                    lemma_views_push(out@, self.tokens@[i as int]);
                    assert(rest.subrange(1, rest.len() as int) =~= self@.subrange(
                        i + 1,
                        n as int,
                    ));
                }
                out.push(self.tokens[i].clone());
                proof {
                    assert(views(out@) =~= before + seq![rest[0]]);
                }
                i += 1;
            }
        }
        proof {
            assert(views(out@) + Seq::<Seq<char>>::empty() =~= views(out@));
        }
        TypeExpr { tokens: out }
    }
}

/// Writes the paths to associated types out in full, in the types of the
/// parameters and in the return type of a signature.
pub fn qualify_signature(sig: &Signature, interface: &TypeExpr, associated: &Vec<String>) -> (r:
    Signature)
    ensures
        r@ == qualified_signature(sig@, interface@, views(associated@)),
{
    let ghost wanted = qualified_signature(sig@, interface@, views(associated@));
    let mut inputs: Vec<Input> = Vec::new();
    let mut i: usize = 0;
    while i < sig.inputs.len()
        invariant
            i <= sig.inputs.len(),
            wanted == qualified_signature(sig@, interface@, views(associated@)),
            views(inputs@) == wanted.inputs.take(i as int),
        decreases sig.inputs.len() - i,
    {
        let input = match &sig.inputs[i] {
            Input::Receiver(receiver) => Input::Receiver(receiver.copy()),
            Input::Typed(parameter) => Input::Typed(
                Parameter {
                    attrs: parameter.attrs.clone(),
                    pattern: parameter.pattern.copy(),
                    ty: parameter.ty.qualify(interface, associated),
                },
            ),
        };
        proof {
            assert(input@ == wanted.inputs[i as int]);
            lemma_views_push(inputs@, input);
            lemma_take_push(wanted.inputs, i as int);
        }
        inputs.push(input);
        i += 1;
    }
    assert(wanted.inputs.take(sig.inputs.len() as int) =~= wanted.inputs);
    let output = match &sig.output {
        Some(ty) => Some(ty.qualify(interface, associated)),
        None => None,
    };
    Signature {
        asyncness: sig.asyncness,
        name: sig.name.clone(),
        generics: copy_generics(&sig.generics),
        inputs,
        output,
    }
}

} // verus!
