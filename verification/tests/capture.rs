use mry_macros::capture::{analyze, is_str, positional_name, ReceiverKind};
use mry_macros::error::RewriteError;
use mry_macros::qualify::{contains_token, qualify_signature};
use mry_macros::syntax::{Input, Parameter, Pattern, Receiver, Signature, TypeExpr};

fn ty(text: &str) -> TypeExpr {
    TypeExpr { tokens: text.split_whitespace().map(str::to_string).collect() }
}

fn typed(pattern: Pattern, text: &str) -> Input {
    Input::Typed(Parameter { attrs: String::new(), pattern, ty: ty(text) })
}

fn receiver(reference: bool, mutable: bool) -> Input {
    Input::Receiver(Receiver { attrs: String::new(), reference, scope: None, mutable })
}

fn signature(inputs: Vec<Input>, output: Option<&str>) -> Signature {
    Signature {
        asyncness: false,
        name: "meow".to_string(),
        generics: Vec::new(),
        inputs,
        output: output.map(ty),
    }
}

#[test]
fn string_slices_are_told_from_other_references() {
    assert!(is_str(&ty("& str")));
    assert!(is_str(&ty("& 'a str")));
    assert!(is_str(&ty("& mut str")));
    assert!(is_str(&ty("& 'static mut str")));
    assert!(!is_str(&ty("str")));
    assert!(!is_str(&ty("& String")));
    assert!(!is_str(&ty("& & str")));
    assert!(!is_str(&ty("& ( str )")));
    assert!(!is_str(&ty("& str :: Chars")));
    assert!(!is_str(&ty("&")));
    assert!(!is_str(&ty("")));
}

#[test]
fn capture_type_law_on_values() {
    assert_eq!(ty("& str").capture_type(), ty("String"));
    assert_eq!(ty("& 'a mut str").capture_type(), ty("String"));
    assert_eq!(ty("& usize").capture_type(), ty("usize"));
    assert_eq!(ty("& 'static mut Vec < u8 >").capture_type(), ty("Vec < u8 >"));
    assert_eq!(ty("& & str").capture_type(), ty("& str"));
    assert_eq!(ty("Option < & str >").capture_type(), ty("Option < & str >"));
    assert_eq!(ty("usize").capture_type(), ty("usize"));
    assert_eq!(ty("").capture_type(), ty(""));
}

#[test]
fn capture_expressions() {
    assert_eq!(ty("& str").capture_expr("base"), "base.to_string()");
    assert_eq!(ty("& 'a mut u8").capture_expr("count"), "*count");
    assert_eq!(ty("u8").capture_expr("count"), "count");
}

#[test]
fn references_are_taken_apart() {
    assert!(ty("& 'a mut T").is_reference());
    assert!(!ty("T").is_reference());
    assert_eq!(ty("& 'a mut T").referent(), Some(ty("T")));
    assert_eq!(ty("& mut 'a T").referent(), Some(ty("'a T")));
    assert_eq!(ty("&").referent(), Some(ty("")));
    assert_eq!(ty("T").referent(), None);
    assert_eq!(ty("").referent(), None);
}

#[test]
fn flat_names_count_from_zero() {
    assert_eq!(positional_name(0), "arg0");
    assert_eq!(positional_name(7), "arg7");
    assert_eq!(positional_name(10), "arg10");
    assert_eq!(positional_name(4096), "arg4096");
    assert_eq!(positional_name(usize::MAX), format!("arg{}", usize::MAX));
}

#[test]
fn analysis_of_a_signature() {
    let found = analyze(&signature(
        vec![
            receiver(true, true),
            typed(Pattern::Destructuring("( a , b )".to_string()), "& ( u8 , u8 )"),
            typed(Pattern::Ident("base".to_string()), "& str"),
            typed(Pattern::Wildcard, "String"),
        ],
        None,
    ))
    .unwrap();
    assert_eq!(found.receiver, ReceiverKind::ByMutableReference);
    assert_eq!(found.output, ty("( )"));
    let names: Vec<&str> = found.captured.iter().map(|kept| kept.name.as_str()).collect();
    assert_eq!(names, ["arg0", "base", "arg2"]);
    let types: Vec<TypeExpr> = found.captured.iter().map(|kept| kept.ty.clone()).collect();
    assert_eq!(types, [ty("( u8 , u8 )"), ty("String"), ty("String")]);
    let exprs: Vec<&str> = found.captured.iter().map(|kept| kept.expr.as_str()).collect();
    assert_eq!(exprs, ["*arg0", "base.to_string()", "arg2"]);
    let patterns: Vec<Pattern> = found.parameters.iter().map(|p| p.pattern.clone()).collect();
    assert_eq!(
        patterns,
        [
            Pattern::Ident("arg0".to_string()),
            Pattern::Ident("base".to_string()),
            Pattern::Ident("arg2".to_string()),
        ]
    );
    let declared: Vec<TypeExpr> = found.parameters.iter().map(|p| p.ty.clone()).collect();
    assert_eq!(declared, [ty("& ( u8 , u8 )"), ty("& str"), ty("String")]);
    let bound: Vec<(&str, &str)> =
        found.bindings.iter().map(|b| (b.pattern.as_str(), b.name.as_str())).collect();
    assert_eq!(bound, [("( a , b )", "arg0"), ("_", "arg2")]);
}

#[test]
fn receivers_are_classified() {
    assert_eq!(analyze(&signature(vec![], None)).unwrap().receiver, ReceiverKind::Static);
    let by_reference = analyze(&signature(vec![receiver(true, false)], Some("u8"))).unwrap();
    assert_eq!(by_reference.receiver, ReceiverKind::ByReference);
    assert_eq!(by_reference.output, ty("u8"));
    assert!(by_reference.captured.is_empty());
    assert_eq!(
        analyze(&signature(vec![typed(Pattern::Wildcard, "u8")], None)).unwrap().receiver,
        ReceiverKind::Static
    );
}

#[test]
fn malformed_signatures() {
    let second = signature(vec![receiver(true, false), receiver(true, false)], None);
    assert_eq!(analyze(&second), Err(RewriteError::MalformedSignature));
    let late = signature(vec![typed(Pattern::Wildcard, "u8"), receiver(true, true)], None);
    assert_eq!(analyze(&late), Err(RewriteError::MalformedSignature));
    let by_value = signature(vec![receiver(false, false)], None);
    assert_eq!(analyze(&by_value), Err(RewriteError::MalformedSignature));
    let by_value_mut = signature(vec![receiver(false, true), typed(Pattern::Wildcard, "u8")], None);
    assert_eq!(analyze(&by_value_mut), Err(RewriteError::MalformedSignature));
}

#[test]
fn paths_are_written_out_in_full() {
    let interface = ty("Animal < A >");
    let associated = vec!["Item".to_string(), "Food".to_string()];
    let full = |text: &str| ty(text).qualify(&interface, &associated);
    assert_eq!(full("Self :: Item"), ty("< Self as Animal < A > > :: Item"));
    assert_eq!(
        full("Option < Self :: Item :: Part >"),
        ty("Option < < Self as Animal < A > > :: Item :: Part >")
    );
    assert_eq!(
        full("( Self :: Food , Self :: Item )"),
        ty("( < Self as Animal < A > > :: Food , < Self as Animal < A > > :: Item )")
    );
    assert_eq!(full("Self :: Toy"), ty("Self :: Toy"));
    assert_eq!(full("< Self as Animal < A > > :: Item"), ty("< Self as Animal < A > > :: Item"));
    assert_eq!(full("Other :: Item"), ty("Other :: Item"));
    assert_eq!(full("Self :: Item").qualify(&interface, &associated), full("Self :: Item"));
    assert_eq!(full("Self ::"), ty("Self ::"));
    assert_eq!(full("Self"), ty("Self"));
    assert_eq!(full(""), ty(""));
    assert_eq!(ty("Self :: Item").qualify(&interface, &Vec::new()), ty("Self :: Item"));
}

#[test]
fn signature_is_qualified_in_types_only() {
    let sig = signature(
        vec![
            receiver(true, false),
            typed(Pattern::Destructuring("Self :: Item { a }".to_string()), "Self :: Item"),
        ],
        Some("& Self :: Item"),
    );
    let full = qualify_signature(&sig, &ty("Cat"), &vec!["Item".to_string()]);
    let mut wanted = sig.clone();
    wanted.inputs[1] = typed(
        Pattern::Destructuring("Self :: Item { a }".to_string()),
        "< Self as Cat > :: Item",
    );
    wanted.output = Some(ty("& < Self as Cat > :: Item"));
    assert_eq!(full, wanted);
    assert!(contains_token(&vec!["a".to_string(), "b".to_string()], &"b".to_string()));
    assert!(!contains_token(&vec!["a".to_string()], &"ab".to_string()));
}
