use fc_metrics_generator::lower::{go_var_type, parse_source_tree, Config, Context};
use fc_metrics_generator::render::{generate, render, METRICS_TEMPLATE};
use fc_metrics_generator::schema::{
    parse_source_code, Attr, Decl, FieldDecl, FieldType, RustStruct, StructBody, StructDecl,
    StructField,
};
use fc_metrics_generator::text::{
    help_of, join_with_spaces, json_tag, rust_field_name_to_go, strip_comment, to_lowercase,
    to_uppercase,
};

fn doc(text: &str) -> Attr {
    Attr { path_head: "doc".to_string(), tokens: format!("= \"{}\"", text) }
}

fn field(name: &str, is_pub: bool, ty: FieldType, attrs: Vec<Attr>) -> FieldDecl {
    FieldDecl { name: name.to_string(), is_pub, ty, attrs }
}

fn path(segments: &[&str]) -> FieldType {
    FieldType::Path(segments.iter().map(|s| s.to_string()).collect())
}

fn named(name: &str, attrs: Vec<Attr>, fields: Vec<FieldDecl>) -> Decl {
    Decl::Struct(StructDecl { name: name.to_string(), attrs, body: StructBody::Named(fields) })
}

fn scenario_items() -> Vec<Decl> {
    vec![
        named(
            "Metrics",
            vec![],
            vec![field("cpu_usage", true, path(&["CpuStat"]), vec![doc(" CPU usage")])],
        ),
        named(
            "CpuStat",
            vec![doc(" busy percent")],
            vec![field("percent", true, path(&["SharedMetric"]), vec![doc(" busy percent")])],
        ),
    ]
}

fn scenario_config() -> Config {
    let mut config = Config::new();
    config.root_name = "Metrics".to_string();
    config
}

fn strings(lines: &[&str]) -> Vec<String> {
    lines.iter().map(|s| s.to_string()).collect()
}

#[test]
fn strip_comment_recovers_inner_text() {
    assert_eq!(strip_comment(&"= \"hello world\"".to_string()), Some("hello world".to_string()));
    assert_eq!(strip_comment(&"= \"\"".to_string()), Some(String::new()));
    assert_eq!(strip_comment(&"= \" a  b \"".to_string()), Some(" a  b ".to_string()));
}

#[test]
fn strip_comment_ignores_malformed() {
    assert_eq!(strip_comment(&"(hidden)".to_string()), None);
    assert_eq!(strip_comment(&"= \"".to_string()), None);
    assert_eq!(strip_comment(&"= \"open".to_string()), None);
    assert_eq!(strip_comment(&String::new()), None);
}

#[test]
fn json_tag_wraps_name() {
    assert_eq!(json_tag(&"percent".to_string()), "`json:\"percent\"`");
}

#[test]
fn field_names_become_upper_camel_case() {
    assert_eq!(rust_field_name_to_go(&"foo_bar_baz".to_string()), "FooBarBaz");
    assert_eq!(rust_field_name_to_go(&"foo".to_string()), "Foo");
    assert_eq!(rust_field_name_to_go(&"cpu_usage".to_string()), "CpuUsage");
    assert_eq!(rust_field_name_to_go(&"a__b_".to_string()), "AB");
    assert_eq!(rust_field_name_to_go(&String::new()), "");
}

#[test]
fn case_of_first_character() {
    assert_eq!(to_uppercase("percent"), "Percent");
    assert_eq!(to_uppercase("ßx"), "SSx");
    assert_eq!(to_uppercase(""), "");
    assert_eq!(to_lowercase("CpuStat"), "cpuStat");
    assert_eq!(to_lowercase("ÀB"), "àB");
    assert_eq!(to_lowercase(""), "");
}

#[test]
fn help_text_is_joined_and_trimmed() {
    let lines = strings(&[" busy", " percent "]);
    assert_eq!(join_with_spaces(&lines), " busy  percent ");
    assert_eq!(help_of(&lines), "busy  percent");
    assert_eq!(help_of(&vec![]), "");
}

#[test]
fn default_rename_applies_to_shared_metric_only() {
    let config = Config::new();
    assert_eq!(go_var_type(&"SharedMetric".to_string(), &config), "uint64");
    assert_eq!(go_var_type(&"u64".to_string(), &config), "u64");
    assert_eq!(go_var_type(&"Shared".to_string(), &config), "Shared");
    assert_eq!(go_var_type(&"SharedMetrics".to_string(), &config), "SharedMetrics");
}

#[test]
fn alternate_rename_table() {
    let mut config = Config::new();
    config.type_renames = vec![
        ("Counter".to_string(), "int64".to_string()),
        ("Counter".to_string(), "ignored".to_string()),
    ];
    assert_eq!(go_var_type(&"Counter".to_string(), &config), "int64");
    assert_eq!(go_var_type(&"SharedMetric".to_string(), &config), "SharedMetric");
}

#[test]
fn extraction_keeps_public_path_fields() {
    let items = vec![
        named(
            "A",
            vec![doc(" struct a"), Attr { path_head: "derive".to_string(), tokens: "(Debug)".to_string() }],
            vec![
                field("kept", true, path(&["std", "u64"]), vec![doc(" kept field")]),
                field("private", false, path(&["u64"]), vec![]),
                field("reference", true, FieldType::Other, vec![]),
            ],
        ),
        named("Empty", vec![], vec![]),
        Decl::Struct(StructDecl { name: "Tuple".to_string(), attrs: vec![], body: StructBody::Tuple }),
        Decl::Other,
    ];
    let list = parse_source_code(&items);
    let a = list.get(&"A".to_string()).unwrap();
    assert_eq!(a.comments, strings(&[" struct a"]));
    assert_eq!(a.fields.len(), 1);
    assert_eq!(a.fields[0].var_name, "kept");
    assert_eq!(a.fields[0].var_type, "std");
    assert_eq!(a.fields[0].comments, strings(&[" kept field"]));
    assert!(list.get(&"Empty".to_string()).is_none());
    assert!(list.get(&"Tuple".to_string()).is_none());
}

#[test]
fn later_struct_of_same_name_wins() {
    let items = vec![
        named("A", vec![], vec![field("first", true, path(&["u64"]), vec![])]),
        named("A", vec![], vec![field("second", true, path(&["u64"]), vec![])]),
    ];
    let list = parse_source_code(&items);
    assert_eq!(list.get(&"A".to_string()).unwrap().fields[0].var_name, "second");
}

#[test]
fn missing_root_gives_no_statements() {
    let list = parse_source_code(&scenario_items());
    let context = parse_source_tree(&list, &Config::new());
    assert!(context.metrics_var_declare_stmt.is_empty());
    assert!(context.metrics_register_stmt.is_empty());
    assert!(context.metrics_set_stmt.is_empty());
    assert!(context.metrics_struct_declare_stmt.is_empty());
    let text = generate(&scenario_items(), &Config::new()).ok().unwrap();
    assert!(text.contains("package virtcontainers"));
    assert!(text.contains("func registerFirecrackerMetrics() {"));
    assert!(text.contains("func updateFirecrackerMetrics(fm *FirecrackerMetrics) {"));
}

#[test]
fn unresolved_root_field_makes_no_group() {
    let mut items = scenario_items();
    if let Decl::Struct(root) = &mut items[0] {
        if let StructBody::Named(fields) = &mut root.body {
            fields.push(field("other", true, path(&["Unknown"]), vec![]));
        }
    }
    let list = parse_source_code(&items);
    let context = parse_source_tree(&list, &scenario_config());
    assert_eq!(context.metrics_register_stmt, strings(&["    prometheus.MustRegister(cpuStat)"]));
    assert_eq!(context.metrics_var_declare_stmt.len(), 2);
    assert_eq!(context.metrics_set_stmt.len(), 3);
    assert!(context.metrics_set_stmt.iter().all(|s| !s.contains("Other")));
}

#[test]
fn end_to_end_scenario() {
    let list = parse_source_code(&scenario_items());
    let context = parse_source_tree(&list, &scenario_config());
    let declare = "cpuStat = prometheus.NewGaugeVec(prometheus.GaugeOpts{\n            Namespace: fcMetricsNS,\n            Name:      \"cpu_usage\",\n            Help:      \"busy percent\",\n        },\n            []string{\"item\"},\n        )";
    assert_eq!(context.metrics_var_declare_stmt, strings(&[declare, ""]));
    assert_eq!(context.metrics_register_stmt, strings(&["    prometheus.MustRegister(cpuStat)"]));
    assert_eq!(
        context.metrics_set_stmt,
        strings(&[
            "    // set metrics for CpuStat",
            "    cpuStat.WithLabelValues(\"percent\").Set(float64(fm.CpuUsage.Percent))",
            "",
        ])
    );
    assert_eq!(
        context.metrics_struct_declare_stmt,
        strings(&[
            "type Metrics struct {",
            "    // CPU usage",
            "    CpuUsage CpuStat `json:\"cpu_usage\"`",
            "}",
            "",
            "//  CPU usage",
            "type CpuStat struct {",
            "    // busy percent",
            "    Percent uint64 `json:\"percent\"`",
            "}",
            "",
        ])
    );
}

#[test]
fn label_name_comes_from_config() {
    let mut config = scenario_config();
    config.label_name = "kind".to_string();
    let list = parse_source_code(&scenario_items());
    let context = parse_source_tree(&list, &config);
    assert!(context.metrics_var_declare_stmt[0].contains("[]string{\"kind\"}"));
}

#[test]
fn struct_definition_of_single_struct() {
    let st = RustStruct {
        comments: vec![],
        name: "Net".to_string(),
        fields: vec![StructField {
            var_name: "rx_bytes".to_string(),
            var_type: "SharedMetric".to_string(),
            comments: vec![],
        }],
    };
    let mut out = vec!["before".to_string()];
    st.generate_struct_definition_code(&mut out, &strings(&["c"]), &Config::new());
    assert_eq!(
        out,
        strings(&["before", "// c", "type Net struct {", "    RxBytes uint64 `json:\"rx_bytes\"`", "}", ""])
    );
    assert_eq!(st.metric_var_name(), "net");
    let mut reg = vec![];
    st.generate_register_code(&mut reg);
    assert_eq!(reg, strings(&["    prometheus.MustRegister(net)"]));
}

#[test]
fn rendering_fills_the_template() {
    let context = Context {
        metrics_var_declare_stmt: strings(&["a", "b"]),
        metrics_register_stmt: strings(&["r"]),
        metrics_set_stmt: vec![],
        metrics_struct_declare_stmt: strings(&["type X struct {", "}"]),
    };
    let text = render(&context).ok().unwrap();
    assert!(text.contains("var (\na\nb\n\n)"));
    assert!(text.contains("func registerFirecrackerMetrics() {\nr\n\n}"));
    assert!(text.contains("type X struct {\n}\n"));
    assert!(!text.contains("{{"));
    assert!(METRICS_TEMPLATE.contains("{{ for line in metrics_set_stmt }}"));
}

#[test]
fn generation_is_repeatable() {
    let first = generate(&scenario_items(), &scenario_config()).ok().unwrap();
    let second = generate(&scenario_items(), &scenario_config()).ok().unwrap();
    assert_eq!(first, second);
    assert!(first.contains("// set metrics for CpuStat"));
    assert!(first.contains("Percent uint64 `json:\"percent\"`"));
}

const SKELETON_HEAD: &str = "// Copyright (c) 2020 xxx.yyy \n//\n// SPDX-License-Identifier: Apache-2.0\n//\n// WARNING: This file is auto-generated - DO NOT EDIT!\n\npackage virtcontainers\n\nimport (\n    \"github.com/prometheus/client_golang/prometheus\"\n)\n\nconst fcMetricsNS = \"kata_firecracker\"\n\n// prometheus metrics Firecracker exposed.\nvar (\n";

#[test]
fn empty_context_renders_exact_skeleton() {
    let context = Context {
        metrics_var_declare_stmt: vec![],
        metrics_register_stmt: vec![],
        metrics_set_stmt: vec![],
        metrics_struct_declare_stmt: vec![],
    };
    let expected = format!(
        "{}{}{}{}{}",
        SKELETON_HEAD,
        "\n)\n\n// registerFirecrackerMetrics register all metrics to prometheus.\nfunc registerFirecrackerMetrics() {\n",
        "\n}\n\n// updateFirecrackerMetrics update all metrics to the latest values.\nfunc updateFirecrackerMetrics(fm *FirecrackerMetrics) {\n",
        "\n}\n\n",
        "\n"
    );
    assert_eq!(render(&context).ok().unwrap(), expected);
    assert_eq!(generate(&scenario_items(), &Config::new()).ok().unwrap(), expected);
}

#[test]
fn filled_context_renders_exact_text() {
    let context = Context {
        metrics_var_declare_stmt: strings(&["v1", "v2"]),
        metrics_register_stmt: strings(&["r1"]),
        metrics_set_stmt: strings(&["s1"]),
        metrics_struct_declare_stmt: strings(&["t1", ""]),
    };
    let expected = format!(
        "{}v1\nv2\n{}r1\n{}s1\n{}t1\n\n{}",
        SKELETON_HEAD,
        "\n)\n\n// registerFirecrackerMetrics register all metrics to prometheus.\nfunc registerFirecrackerMetrics() {\n",
        "\n}\n\n// updateFirecrackerMetrics update all metrics to the latest values.\nfunc updateFirecrackerMetrics(fm *FirecrackerMetrics) {\n",
        "\n}\n\n",
        "\n"
    );
    assert_eq!(render(&context).ok().unwrap(), expected);
}

#[test]
fn trim_removes_unicode_white_space_only() {
    assert_eq!(help_of(&strings(&["\u{3000}\t busy percent\u{a0}\n"])), "busy percent");
    assert_eq!(help_of(&strings(&["_x_"])), "_x_");
}

#[test]
fn converting_a_converted_name_changes_nothing() {
    for name in ["foo_bar_baz", "_a1_b", "x", "already_Camel", ""] {
        let once = rust_field_name_to_go(&name.to_string());
        assert!(!once.contains('_'));
        assert_eq!(rust_field_name_to_go(&once), once);
    }
    assert_eq!(rust_field_name_to_go(&"FooBarBaz".to_string()), "FooBarBaz");
}
