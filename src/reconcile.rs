//! Signature reconciliation: merges the arity that the compiler inferred with
//! the names that a documentation comment or a constructor's fields declare.
use crate::model::{
    args_view, outs_view, strs, ArgumentView, FunctionArgument, FunctionDefinition,
    FunctionOutput, FunctionView, NamedArgument, NamedSignature, OutputView, SignatureInfo,
};
use crate::text::{decimal, decimal_string};
use vstd::prelude::*;

verus! {

/// Default name of input slot `i` of `n`: `Input` alone, or numbered from 1.
pub open spec fn input_name(n: nat, i: nat) -> Seq<char> {
    if n == 1 {
        "Input"@
    } else {
        "Input"@ + decimal(i + 1)
    }
}

/// Default name of output slot `i` of `n`: `Output` alone, or numbered from 1.
pub open spec fn output_name(n: nat, i: nat) -> Seq<char> {
    if n == 1 {
        "Output"@
    } else {
        "Output"@ + decimal(i + 1)
    }
}

/// The names of the constructor fields whose `required` flag is `required`,
/// in declaration order.
pub open spec fn field_names(args: Seq<NamedArgument>, required: bool) -> Seq<Seq<char>>
    decreases args.len(),
{
    if args.len() == 0 {
        Seq::empty()
    } else {
        let rest = field_names(args.drop_last(), required);
        if args.last().required == required {
            rest.push(args.last().name@)
        } else {
            rest
        }
    }
}

pub open spec fn slot(names: Seq<Seq<char>>, i: int) -> Option<Seq<char>> {
    if 0 <= i < names.len() {
        Some(names[i])
    } else {
        None
    }
}

/// One required input: the default when neither a comment nor a field names
/// it; otherwise the field name if any, else the comment name, keeping a
/// differing comment name as an alias.
pub open spec fn reconciled_input(
    default: Seq<char>,
    comment: Option<Seq<char>>,
    field: Option<Seq<char>>,
) -> ArgumentView {
    if comment.is_none() && field.is_none() {
        ArgumentView { name: default, optional: false, comment_name: None, inferred: true }
    } else {
        let name = match field {
            Some(f) => f,
            None => comment.unwrap(),
        };
        ArgumentView {
            name: name,
            optional: false,
            comment_name: match comment {
                Some(c) => if c != name {
                    Some(c)
                } else {
                    None
                },
                None => None,
            },
            inferred: false,
        }
    }
}

pub open spec fn reconciled_inputs(n: nat, comments: Seq<Seq<char>>, fields: Seq<Seq<char>>) -> Seq<
    ArgumentView,
> {
    Seq::new(n, |i: int| reconciled_input(input_name(n, i as nat), slot(comments, i), slot(fields, i)))
}

pub open spec fn optional_input(name: Seq<char>) -> ArgumentView {
    ArgumentView { name: name, optional: true, comment_name: None, inferred: false }
}

pub open spec fn reconciled_outputs(n: nat, comments: Seq<Seq<char>>) -> Seq<OutputView> {
    Seq::new(
        n,
        |i: int|
            match slot(comments, i) {
                Some(c) => OutputView { name: c, inferred: false },
                None => OutputView { name: output_name(n, i as nat), inferred: true },
            },
    )
}

pub open spec fn comment_inputs(named: Option<NamedSignature>) -> Seq<Seq<char>> {
    match named {
        Some(n) => n@.inputs,
        None => Seq::empty(),
    }
}

pub open spec fn comment_outputs(named: Option<NamedSignature>) -> Seq<Seq<char>> {
    match named {
        Some(n) => n@.outputs,
        None => Seq::empty(),
    }
}

pub open spec fn given_args(args: Option<Vec<NamedArgument>>) -> Seq<NamedArgument> {
    match args {
        Some(a) => a@,
        None => Seq::empty(),
    }
}

/// The reconciled signature of a function.
pub open spec fn reconciled(
    sig: SignatureInfo,
    named: Option<NamedSignature>,
    args: Seq<NamedArgument>,
) -> FunctionView {
    FunctionView {
        required_inputs: reconciled_inputs(
            sig.inputs as nat,
            comment_inputs(named),
            field_names(args, true),
        ),
        optional_inputs: field_names(args, false).map_values(|n: Seq<char>| optional_input(n)),
        outputs: reconciled_outputs(sig.outputs as nat, comment_outputs(named)),
    }
}

fn numbered_name(base: &str, n: usize, i: usize) -> (r: String)
    requires
        i < n,
    ensures
        n == 1 ==> r@ == base@,
        n != 1 ==> r@ == base@ + decimal(i as nat + 1),
{
    let mut s = String::from_str(base);
    if n != 1 {
        let d = decimal_string(i + 1);
        s.append(d.as_str());
    }
    s
}

/// Splits constructor fields into the names of required and of optional
/// ones, each in declaration order.
fn partition_fields(args: &Vec<NamedArgument>) -> (r: (Vec<String>, Vec<String>))
    ensures
        strs(r.0@) == field_names(args@, true),
        strs(r.1@) == field_names(args@, false),
{
    let mut required: Vec<String> = Vec::new();
    let mut optional: Vec<String> = Vec::new();
    let mut i: usize = 0;
    while i < args.len()
        invariant
            0 <= i <= args@.len(),
            strs(required@) == field_names(args@.subrange(0, i as int), true),
            strs(optional@) == field_names(args@.subrange(0, i as int), false),
        decreases args@.len() - i,
    {
        let ghost prefix = args@.subrange(0, i as int);
        let ghost next = args@.subrange(0, i as int + 1);
        assert(next.drop_last() == prefix);
        assert(next.last() == args@[i as int]);
        let name = args[i].name.clone();
        if args[i].required {
            required.push(name);
            assert(strs(required@) =~= strs(required@.drop_last()).push(name@));
        } else {
            optional.push(name);
            assert(strs(optional@) =~= strs(optional@.drop_last()).push(name@));
        }
        i += 1;
    }
    assert(args@.subrange(0, args@.len() as int) == args@);
    (required, optional)
}

/// Reconciles a function's arity with the names given by its documentation
/// comment and, for a data constructor, by its fields.
pub fn reconsiliate_function_definition(
    signature: SignatureInfo,
    named_signature: Option<NamedSignature>,
    named_arguments: Option<Vec<NamedArgument>>,
) -> (r: FunctionDefinition)
    ensures
        r@ == reconciled(signature, named_signature, given_args(named_arguments)),
{
    let no_names: Vec<String> = Vec::new();
    let no_args: Vec<NamedArgument> = Vec::new();
    let comment_ins: &Vec<String> = match &named_signature {
        Some(n) => &n.inputs,
        None => &no_names,
    };
    let comment_outs: &Vec<String> = match &named_signature {
        Some(n) => &n.outputs,
        None => &no_names,
    };
    let args: &Vec<NamedArgument> = match &named_arguments {
        Some(a) => a,
        None => &no_args,
    };
    assert(strs(comment_ins@) == comment_inputs(named_signature)) by {
        assert(strs(no_names@) =~= Seq::<Seq<char>>::empty());
    }
    assert(strs(comment_outs@) == comment_outputs(named_signature)) by {
        assert(strs(no_names@) =~= Seq::<Seq<char>>::empty());
    }
    let (required_names, optional_names) = partition_fields(args);
    let ghost comments = strs(comment_ins@);
    let ghost fields = strs(required_names@);
    let ghost n = signature.inputs as nat;

    let mut required_inputs: Vec<FunctionArgument> = Vec::new();
    let mut i: usize = 0;
    while i < signature.inputs
        invariant
            0 <= i <= signature.inputs,
            comments == strs(comment_ins@),
            fields == strs(required_names@),
            n == signature.inputs as nat,
            required_inputs@.len() == i,
            forall|k: int|
                0 <= k < i ==> (#[trigger] required_inputs@[k])@ == reconciled_input(
                    input_name(n, k as nat),
                    slot(comments, k),
                    slot(fields, k),
                ),
        decreases signature.inputs - i,
    {
        let comment: Option<String> = if i < comment_ins.len() {
            Some(comment_ins[i].clone())
        } else {
            None
        };
        let field: Option<String> = if i < required_names.len() {
            Some(required_names[i].clone())
        } else {
            None
        };
        assert(crate::model::opt_str(comment) == slot(comments, i as int));
        assert(crate::model::opt_str(field) == slot(fields, i as int));
        let arg = match (comment, field) {
            (None, None) => {
                proof {
                    reveal_strlit("Input");
                }
                FunctionArgument {
                    name: numbered_name("Input", signature.inputs, i),
                    optional: false,
                    comment_name: None,
                    inferred: true,
                }
            },
            (comment, field) => {
                let name: String = match &field {
                    Some(f) => f.clone(),
                    None => match &comment {
                        Some(c) => c.clone(),
                        None => String::new(),
                    },
                };
                let alias: Option<String> = match comment {
                    Some(c) => if c != name {
                        Some(c)
                    } else {
                        None
                    },
                    None => None,
                };
                FunctionArgument { name, optional: false, comment_name: alias, inferred: false }
            },
        };
        required_inputs.push(arg);
        i += 1;
    }

    let mut optional_inputs: Vec<FunctionArgument> = Vec::new();
    let mut j: usize = 0;
    while j < optional_names.len()
        invariant
            0 <= j <= optional_names@.len(),
            optional_inputs@.len() == j,
            forall|k: int|
                0 <= k < j ==> (#[trigger] optional_inputs@[k])@ == optional_input(
                    optional_names@[k]@,
                ),
        decreases optional_names@.len() - j,
    {
        optional_inputs.push(
            FunctionArgument {
                name: optional_names[j].clone(),
                optional: true,
                comment_name: None,
                inferred: false,
            },
        );
        j += 1;
    }

    let ghost out_comments = strs(comment_outs@);
    let ghost m = signature.outputs as nat;
    let mut outputs: Vec<FunctionOutput> = Vec::new();
    let mut o: usize = 0;
    while o < signature.outputs
        invariant
            0 <= o <= signature.outputs,
            out_comments == strs(comment_outs@),
            m == signature.outputs as nat,
            outputs@.len() == o,
            forall|k: int|
                0 <= k < o ==> (#[trigger] outputs@[k])@ == reconciled_outputs(m, out_comments)[k],
        decreases signature.outputs - o,
    {
        let out = if o < comment_outs.len() {
            FunctionOutput { name: comment_outs[o].clone(), inferred: false }
        } else {
            proof {
                reveal_strlit("Output");
            }
            FunctionOutput {
                name: numbered_name("Output", signature.outputs, o),
                inferred: true,
            }
        };
        outputs.push(out);
        o += 1;
    }

    let r = FunctionDefinition { required_inputs, optional_inputs, outputs };
    assert(args_view(r.required_inputs@) =~= reconciled_inputs(n, comments, fields));
    assert(args_view(r.optional_inputs@) =~= field_names(given_args(named_arguments), false).map_values(
        |s: Seq<char>| optional_input(s),
    ));
    assert(outs_view(r.outputs@) =~= reconciled_outputs(m, out_comments));
    r
}

/// Reconciliation reads the declared names only through their views.
pub proof fn lemma_reconciled_by_view(
    sig: SignatureInfo,
    a: Option<NamedSignature>,
    b: Option<NamedSignature>,
    args: Seq<NamedArgument>,
)
    requires
        crate::model::opt_sig(a) == crate::model::opt_sig(b),
    ensures
        reconciled(sig, a, args) == reconciled(sig, b, args),
{
    assert(comment_inputs(a) == comment_inputs(b));
    assert(comment_outputs(a) == comment_outputs(b));
}

} // verus!
