//! Rendering of the statements into the Go source template, and the whole
//! pipeline from declarations to Go source.
use vstd::prelude::*;

use crate::lower::{lowered, parse_source_tree, Config, ConfigModel, Context, ContextModel};
use crate::schema::{extract, parse_source_code, Decl};
use crate::text::lines_of;

verus! {

#[verifier::external_type_specification]
#[verifier::external_body]
pub struct ExTemplateError(tinytemplate::error::Error);

/// The Go source file; each of the four slots takes one statement per line.
pub const METRICS_TEMPLATE: &'static str = r#"// Copyright (c) 2020 xxx.yyy 
//
// SPDX-License-Identifier: Apache-2.0
//
// WARNING: This file is auto-generated - DO NOT EDIT!

package virtcontainers

import (
    "github.com/prometheus/client_golang/prometheus"
)

const fcMetricsNS = "kata_firecracker"

// prometheus metrics Firecracker exposed.
var (
{{ for line in metrics_var_declare_stmt }}{line}
{{ endfor }}
)

// registerFirecrackerMetrics register all metrics to prometheus.
func registerFirecrackerMetrics() \{
{{ for line in metrics_register_stmt }}{line}
{{ endfor }}
}

// updateFirecrackerMetrics update all metrics to the latest values.
func updateFirecrackerMetrics(fm *FirecrackerMetrics) \{
{{ for line in metrics_set_stmt }}{line}
{{ endfor }}
}

{{ for line in metrics_struct_declare_stmt }}{line}
{{ endfor }}
"#;

/// The lines of a slot, each followed by a newline.
pub open spec fn block(lines: Seq<Seq<char>>) -> Seq<char>
    decreases lines.len(),
{
    if lines.len() == 0 {
        Seq::empty()
    } else {
        block(lines.drop_last()) + lines.last() + "\n"@
    }
}

/// The text of the template before its first slot.
pub open spec fn head_text() -> Seq<char> {
    "// Copyright (c) 2020 xxx.yyy \n//\n// SPDX-License-Identifier: Apache-2.0\n//\n// WARNING: This file is auto-generated - DO NOT EDIT!\n\npackage virtcontainers\n\nimport (\n    \"github.com/prometheus/client_golang/prometheus\"\n)\n\nconst fcMetricsNS = \"kata_firecracker\"\n\n// prometheus metrics Firecracker exposed.\nvar (\n"@
}

/// The text of the template between the first and the second slot.
pub open spec fn register_head_text() -> Seq<char> {
    "\n)\n\n// registerFirecrackerMetrics register all metrics to prometheus.\nfunc registerFirecrackerMetrics() {\n"@
}

/// The text of the template between the second and the third slot.
pub open spec fn update_head_text() -> Seq<char> {
    "\n}\n\n// updateFirecrackerMetrics update all metrics to the latest values.\nfunc updateFirecrackerMetrics(fm *FirecrackerMetrics) {\n"@
}

/// The text of the template between the third and the fourth slot.
pub open spec fn structs_head_text() -> Seq<char> {
    "\n}\n\n"@
}

/// The text of the template after its last slot.
pub open spec fn tail_text() -> Seq<char> {
    "\n"@
}

/// The Go source: the fixed text of the template with the lines of each slot
/// in place.
pub open spec fn metrics_text(
    var_declare: Seq<Seq<char>>,
    register: Seq<Seq<char>>,
    set: Seq<Seq<char>>,
    struct_declare: Seq<Seq<char>>,
) -> Seq<char> {
    head_text() + block(var_declare) + register_head_text() + block(register) + update_head_text()
        + block(set) + structs_head_text() + block(struct_declare) + tail_text()
}

/// Relies on tinytemplate's `TinyTemplate::add_template`, `set_default_formatter`
/// with `format_unescaped`, and `render`, on `METRICS_TEMPLATE`: it compiles (no
/// tag there is malformed), each slot is an array of strings, which `for`
/// walks in order and `format_unescaped` writes as they are, and `\{` stands
/// for `{`.
#[verifier::external_body]
fn render_template(
    var_declare: &Vec<String>,
    register: &Vec<String>,
    set: &Vec<String>,
    struct_declare: &Vec<String>,
) -> (r: Result<String, tinytemplate::error::Error>)
    ensures
        r is Ok,
        r->Ok_0@ == metrics_text(lines_of(var_declare@), lines_of(register@), lines_of(set@), lines_of(struct_declare@)),
{
    let mut tt = tinytemplate::TinyTemplate::new();
    tt.add_template("metrics", METRICS_TEMPLATE)?;
    tt.set_default_formatter(&tinytemplate::format_unescaped);
    let mut slots = std::collections::BTreeMap::new();
    slots.insert("metrics_var_declare_stmt", var_declare);
    slots.insert("metrics_register_stmt", register);
    slots.insert("metrics_set_stmt", set);
    slots.insert("metrics_struct_declare_stmt", struct_declare);
    tt.render("metrics", &slots)
}

/// Why a run of the generator fails.
pub enum GenerateError {
    IncorrectUsage,
    ReadFile(String),
    ParseError(String),
    RenderError(tinytemplate::error::Error),
}

/// The Go source for the four statement lists.
pub open spec fn context_text(c: ContextModel) -> Seq<char> {
    metrics_text(c.var_declare, c.register, c.set, c.struct_declare)
}

/// The Go source generated from the declarations of a file.
pub open spec fn generated_text(items: Seq<Decl>, config: ConfigModel) -> Seq<char> {
    context_text(lowered(extract(items), config))
}

/// Fills the template with the statements.
pub fn render(context: &Context) -> (r: Result<String, GenerateError>)
    ensures
        r matches Ok(s) && s@ == context_text(context@),
{
    match render_template(
        &context.metrics_var_declare_stmt,
        &context.metrics_register_stmt,
        &context.metrics_set_stmt,
        &context.metrics_struct_declare_stmt,
    ) {
        Ok(s) => Ok(s),
        Err(e) => Err(GenerateError::RenderError(e)),
    }
}

/// Extracts the schema from the declarations, lowers it and renders the Go
/// source.
pub fn generate(items: &Vec<Decl>, config: &Config) -> (r: Result<String, GenerateError>)
    ensures
        r matches Ok(s) && s@ == generated_text(items@, config@),
{
    let struct_list = parse_source_code(items);
    let context = parse_source_tree(&struct_list, config);
    render(&context)
}

/// The generated source is a function of the input: two inputs with the
/// same schema, in particular two identical inputs, give the same text.
pub proof fn lemma_same_schema_same_output(a: Seq<Decl>, b: Seq<Decl>, config: ConfigModel)
    requires
        extract(a) == extract(b),
    ensures
        generated_text(a, config) == generated_text(b, config),
{
}

/// A schema without the root struct still gives the whole fixed text of the
/// template, with every slot empty.
pub proof fn lemma_no_root_skeleton(items: Seq<Decl>, config: ConfigModel)
    requires
        !extract(items).contains_key(config.root_name),
    ensures
        generated_text(items, config) == head_text() + register_head_text() + update_head_text()
            + structs_head_text() + tail_text(),
{
    crate::lower::lemma_no_root_no_statements(items, config);
    let c = lowered(extract(items), config);
    assert(c.var_declare =~= Seq::<Seq<char>>::empty());
    assert(c.register =~= Seq::<Seq<char>>::empty());
    assert(c.set =~= Seq::<Seq<char>>::empty());
    assert(c.struct_declare =~= Seq::<Seq<char>>::empty());
    assert(generated_text(items, config) =~= head_text() + register_head_text() + update_head_text()
        + structs_head_text() + tail_text());
}

} // verus!
