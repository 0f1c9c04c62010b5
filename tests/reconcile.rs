use uiua_docs::model::{
    Colored, FunctionArgument, IndexMacroDefinition, NamedArgument, NamedSignature, SignatureInfo,
};
use uiua_docs::reconcile::reconsiliate_function_definition;

fn names(args: &[FunctionArgument]) -> Vec<String> {
    args.iter().map(|a| a.name.clone()).collect()
}

fn strings(v: &[&str]) -> Vec<String> {
    v.iter().map(|s| s.to_string()).collect()
}

#[test]
fn inferred_names_for_several_inputs_and_outputs() {
    let f = reconsiliate_function_definition(SignatureInfo { inputs: 3, outputs: 2 }, None, None);
    assert_eq!(names(&f.required_inputs), strings(&["Input1", "Input2", "Input3"]));
    assert!(f.required_inputs.iter().all(|a| a.inferred && !a.optional && a.comment_name.is_none()));
    assert!(f.optional_inputs.is_empty());
    let outs: Vec<String> = f.outputs.iter().map(|o| o.name.clone()).collect();
    assert_eq!(outs, strings(&["Output1", "Output2"]));
    assert!(f.outputs.iter().all(|o| o.inferred));
}

#[test]
fn inferred_names_for_single_input_and_output() {
    let f = reconsiliate_function_definition(SignatureInfo { inputs: 1, outputs: 1 }, None, None);
    assert_eq!(names(&f.required_inputs), strings(&["Input"]));
    assert_eq!(f.outputs[0].name, "Output");
    assert!(f.outputs[0].inferred);
}

#[test]
fn inferred_names_for_no_arity() {
    let f = reconsiliate_function_definition(SignatureInfo { inputs: 0, outputs: 0 }, None, None);
    assert!(f.required_inputs.is_empty());
    assert!(f.outputs.is_empty());
}

#[test]
fn inferred_names_past_nine() {
    let f = reconsiliate_function_definition(SignatureInfo { inputs: 11, outputs: 0 }, None, None);
    assert_eq!(f.required_inputs[9].name, "Input10");
    assert_eq!(f.required_inputs[10].name, "Input11");
}

#[test]
fn comment_names_replace_defaults() {
    let named = NamedSignature { inputs: strings(&["a", "b"]), outputs: strings(&["r"]) };
    let f = reconsiliate_function_definition(SignatureInfo { inputs: 2, outputs: 1 }, Some(named), None);
    assert_eq!(names(&f.required_inputs), strings(&["a", "b"]));
    assert!(f.required_inputs.iter().all(|a| !a.inferred && !a.optional && a.comment_name.is_none()));
    assert_eq!(f.outputs.len(), 1);
    assert_eq!(f.outputs[0].name, "r");
    assert!(!f.outputs[0].inferred);
}

#[test]
fn fewer_comment_names_than_slots_keep_defaults() {
    let named = NamedSignature { inputs: strings(&["a"]), outputs: vec![] };
    let f = reconsiliate_function_definition(SignatureInfo { inputs: 2, outputs: 2 }, Some(named), None);
    assert_eq!(names(&f.required_inputs), strings(&["a", "Input2"]));
    assert!(!f.required_inputs[0].inferred);
    assert!(f.required_inputs[1].inferred);
    assert_eq!(f.outputs[0].name, "Output1");
}

#[test]
fn constructor_fields_required_and_optional() {
    let args = vec![
        NamedArgument { name: "x".to_string(), required: true },
        NamedArgument { name: "y".to_string(), required: false },
    ];
    let f = reconsiliate_function_definition(SignatureInfo { inputs: 1, outputs: 1 }, None, Some(args));
    assert_eq!(names(&f.required_inputs), strings(&["x"]));
    assert!(!f.required_inputs[0].optional);
    assert!(!f.required_inputs[0].inferred);
    assert_eq!(names(&f.optional_inputs), strings(&["y"]));
    assert!(f.optional_inputs[0].optional);
    assert!(!f.optional_inputs[0].inferred);
    assert!(f.optional_inputs[0].comment_name.is_none());
}

#[test]
fn field_name_differing_from_comment_keeps_alias() {
    let named = NamedSignature { inputs: strings(&["value"]), outputs: vec![] };
    let args = vec![NamedArgument { name: "x".to_string(), required: true }];
    let f = reconsiliate_function_definition(SignatureInfo { inputs: 1, outputs: 1 }, Some(named), Some(args));
    assert_eq!(f.required_inputs[0].name, "x");
    assert_eq!(f.required_inputs[0].comment_name.as_deref(), Some("value"));
    assert!(!f.required_inputs[0].inferred);
}

#[test]
fn field_name_equal_to_comment_has_no_alias() {
    let named = NamedSignature { inputs: strings(&["x"]), outputs: vec![] };
    let args = vec![NamedArgument { name: "x".to_string(), required: true }];
    let f = reconsiliate_function_definition(SignatureInfo { inputs: 1, outputs: 1 }, Some(named), Some(args));
    assert_eq!(f.required_inputs[0].name, "x");
    assert!(f.required_inputs[0].comment_name.is_none());
}

#[test]
fn inputs_lists_required_then_optional() {
    let args = vec![
        NamedArgument { name: "x".to_string(), required: true },
        NamedArgument { name: "y".to_string(), required: false },
    ];
    let f = reconsiliate_function_definition(SignatureInfo { inputs: 1, outputs: 1 }, None, Some(args));
    assert_eq!(names(&f.inputs()), strings(&["x", "y"]));
    let sig = f.signature();
    assert_eq!((sig.inputs, sig.outputs), (1, 1));
}

#[test]
fn signature_display_and_class() {
    assert_eq!(SignatureInfo { inputs: 2, outputs: 1 }.to_display_string(), "|2");
    assert_eq!(SignatureInfo { inputs: 2, outputs: 3 }.to_display_string(), "|2.3");
    assert_eq!(SignatureInfo { inputs: 12, outputs: 0 }.to_display_string(), "|12.0");
    assert_eq!(SignatureInfo { inputs: 2, outputs: 1 }.color_class(), "dyadic-function");
    assert_eq!(SignatureInfo { inputs: 7, outputs: 1 }.color_class(), "");
}

#[test]
fn index_macro_classes() {
    let class = |arguments| IndexMacroDefinition { arguments, named_signature: None }.color_class();
    assert_eq!(class(0), "monadic-modifier");
    assert_eq!(class(1), "monadic-modifier");
    assert_eq!(class(2), "dyadic-modifier");
    assert_eq!(class(3), "triadic-modifier");
}
