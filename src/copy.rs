//! Deep copies of documentation items that keep their views.
use crate::model::{
    lemma_module_items, opt_def, opt_sig, BindingDefinition, BindingType,
    CodeMacroDefinition, ConstantDefinition, DataDefinition, Definition, Field,
    FunctionArgument, FunctionDefinition, FunctionOutput, ImportDefinition,
    IndexMacroDefinition, ItemContent, ModuleDefinition, NamedSignature, VariantDefinition,
};
use crate::text::copy_opt;
use vstd::prelude::*;

verus! {

fn copy_strings(v: &Vec<String>) -> (r: Vec<String>)
    ensures
        r@ == v@,
{
    let mut r: Vec<String> = Vec::new();
    let mut i: usize = 0;
    while i < v.len()
        invariant
            0 <= i <= v@.len(),
            r@ == v@.subrange(0, i as int),
        decreases v@.len() - i,
    {
        r.push(v[i].clone());
        assert(r@ =~= v@.subrange(0, i as int + 1));
        i += 1;
    }
    assert(v@.subrange(0, v@.len() as int) =~= v@);
    r
}

impl NamedSignature {
    pub fn duplicate(&self) -> (r: Self)
        ensures
            r@ == self@,
    {
        NamedSignature { inputs: copy_strings(&self.inputs), outputs: copy_strings(&self.outputs) }
    }
}

pub fn copy_sig(o: &Option<NamedSignature>) -> (r: Option<NamedSignature>)
    ensures
        opt_sig(r) == opt_sig(*o),
{
    match o {
        Some(s) => Some(s.duplicate()),
        None => None,
    }
}

impl Field {
    pub fn duplicate(&self) -> (r: Self)
        ensures
            r@ == self@,
    {
        Field { name: self.name.clone(), validator: copy_opt(&self.validator) }
    }
}

impl Definition {
    pub fn duplicate(&self) -> (r: Self)
        ensures
            r@ == self@,
    {
        let mut fields: Vec<Field> = Vec::new();
        let mut i: usize = 0;
        while i < self.fields.len()
            invariant
                0 <= i <= self.fields@.len(),
                fields@.len() == i,
                forall|k: int| 0 <= k < i ==> (#[trigger] fields@[k])@ == self.fields@[k]@,
            decreases self.fields@.len() - i,
        {
            fields.push(self.fields[i].duplicate());
            i += 1;
        }
        let r = Definition { boxed: self.boxed, fields };
        assert(r@.fields =~= self@.fields);
        r
    }
}

fn copy_def(o: &Option<Definition>) -> (r: Option<Definition>)
    ensures
        opt_def(r) == opt_def(*o),
{
    match o {
        Some(d) => Some(d.duplicate()),
        None => None,
    }
}

impl FunctionArgument {
    pub fn duplicate(&self) -> (r: Self)
        ensures
            r@ == self@,
    {
        FunctionArgument {
            name: self.name.clone(),
            optional: self.optional,
            comment_name: copy_opt(&self.comment_name),
            inferred: self.inferred,
        }
    }
}

/// Copies `v` onto the end of `out`.
pub fn append_arguments(out: &mut Vec<FunctionArgument>, v: &Vec<FunctionArgument>)
    ensures
        final(out)@.len() == old(out)@.len() + v@.len(),
        forall|k: int| 0 <= k < old(out)@.len() ==> #[trigger] final(out)@[k] == old(out)@[k],
        forall|k: int|
            0 <= k < v@.len() ==> (#[trigger] final(out)@[old(out)@.len() + k])@ == v@[k]@,
{
    let ghost start = out@;
    let mut i: usize = 0;
    while i < v.len()
        invariant
            0 <= i <= v@.len(),
            out@.len() == start.len() + i,
            forall|k: int| 0 <= k < start.len() ==> #[trigger] out@[k] == start[k],
            forall|k: int| 0 <= k < i ==> (#[trigger] out@[start.len() + k])@ == v@[k]@,
        decreases v@.len() - i,
    {
        out.push(v[i].duplicate());
        i += 1;
    }
}

pub fn copy_arguments(v: &Vec<FunctionArgument>) -> (r: Vec<FunctionArgument>)
    ensures
        r@.len() == v@.len(),
        forall|k: int| 0 <= k < v@.len() ==> (#[trigger] r@[k])@ == v@[k]@,
{
    let mut r: Vec<FunctionArgument> = Vec::new();
    append_arguments(&mut r, v);
    assert forall|k: int| 0 <= k < v@.len() implies (#[trigger] r@[k])@ == v@[k]@ by {
        assert(r@[0 + k] == r@[k]);
    }
    r
}

impl FunctionDefinition {
    pub fn duplicate(&self) -> (r: Self)
        ensures
            r@ == self@,
    {
        let required_inputs = copy_arguments(&self.required_inputs);
        let optional_inputs = copy_arguments(&self.optional_inputs);
        let mut outputs: Vec<FunctionOutput> = Vec::new();
        let mut i: usize = 0;
        while i < self.outputs.len()
            invariant
                0 <= i <= self.outputs@.len(),
                outputs@.len() == i,
                forall|k: int| 0 <= k < i ==> (#[trigger] outputs@[k])@ == self.outputs@[k]@,
            decreases self.outputs@.len() - i,
        {
            outputs.push(
                FunctionOutput { name: self.outputs[i].name.clone(), inferred: self.outputs[i].inferred },
            );
            i += 1;
        }
        let r = FunctionDefinition { required_inputs, optional_inputs, outputs };
        assert(r@.required_inputs =~= self@.required_inputs);
        assert(r@.optional_inputs =~= self@.optional_inputs);
        assert(r@.outputs =~= self@.outputs);
        r
    }
}

impl BindingType {
    pub fn duplicate(&self) -> (r: Self)
        ensures
            r@ == self@,
    {
        match self {
            BindingType::Const(c) => BindingType::Const(
                ConstantDefinition { value: copy_opt(&c.value) },
            ),
            BindingType::Function(f) => BindingType::Function(f.duplicate()),
            BindingType::IndexMacro(m) => BindingType::IndexMacro(
                IndexMacroDefinition {
                    arguments: m.arguments,
                    named_signature: copy_sig(&m.named_signature),
                },
            ),
            BindingType::CodeMacro(m) => BindingType::CodeMacro(
                CodeMacroDefinition { named_signature: copy_sig(&m.named_signature) },
            ),
        }
    }
}

impl BindingDefinition {
    pub fn duplicate(&self) -> (r: Self)
        ensures
            r@ == self@,
    {
        BindingDefinition {
            name: self.name.clone(),
            code: self.code.clone(),
            public: self.public,
            comment: copy_opt(&self.comment),
            kind: self.kind.duplicate(),
        }
    }
}

impl ItemContent {
    pub fn duplicate(&self) -> (r: Self)
        ensures
            r@ == self@,
        decreases self,
    {
        match self {
            ItemContent::Words { code } => ItemContent::Words { code: code.clone() },
            ItemContent::Binding(b) => ItemContent::Binding(b.duplicate()),
            ItemContent::Module(m) => ItemContent::Module(m.duplicate()),
            ItemContent::Data(d) => ItemContent::Data(
                DataDefinition {
                    name: copy_opt(&d.name),
                    comment: copy_opt(&d.comment),
                    definition: copy_def(&d.definition),
                },
            ),
            ItemContent::Variant(v) => ItemContent::Variant(
                VariantDefinition {
                    name: v.name.clone(),
                    comment: copy_opt(&v.comment),
                    definition: copy_def(&v.definition),
                },
            ),
            ItemContent::Import(i) => ItemContent::Import(ImportDefinition { path: i.path.clone() }),
        }
    }
}

impl ModuleDefinition {
    pub fn duplicate(&self) -> (r: Self)
        ensures
            r@ == self@,
        decreases self,
    {
        let mut items: Vec<ItemContent> = Vec::new();
        let mut i: usize = 0;
        while i < self.items.len()
            invariant
                0 <= i <= self.items@.len(),
                items@.len() == i,
                forall|k: int| 0 <= k < i ==> (#[trigger] items@[k])@ == self.items@[k]@,
            decreases self.items@.len() - i,
        {
            items.push(self.items[i].duplicate());
            i += 1;
        }
        let r = ModuleDefinition { name: self.name.clone(), comment: copy_opt(&self.comment), items };
        proof {
            lemma_module_items(r);
            lemma_module_items(*self);
        }
        assert(r@.items =~= self@.items);
        r
    }
}

} // verus!
