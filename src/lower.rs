//! Lowering of the schema to Go statements: struct declarations, metric
//! variable declarations, registrations and updates.
use vstd::prelude::*;
use vstd::string::*;

use crate::schema::{FieldModel, RustStruct, StructList, StructModel};
use crate::text::{
    go_field_name, help_of, help_text, json_tag, json_tag_of, lines_of, lower_first,
    rust_field_name_to_go, to_lowercase,
};

verus! {

/// The fixed choices of the generator: the name of the root struct, the Go
/// type that stands for each renamed Rust type, and the label of every metric.
pub struct Config {
    pub root_name: String,
    pub type_renames: Vec<(String, String)>,
    pub label_name: String,
}

pub ghost struct ConfigModel {
    pub root_name: Seq<char>,
    pub renames: Seq<(Seq<char>, Seq<char>)>,
    pub label_name: Seq<char>,
}

impl View for Config {
    type V = ConfigModel;

    open spec fn view(&self) -> ConfigModel {
        ConfigModel {
            root_name: self.root_name@,
            renames: self.type_renames@.map_values(|p: (String, String)| (p.0@, p.1@)),
            label_name: self.label_name@,
        }
    }
}

/// The default choices: root `FirecrackerMetrics`, `SharedMetric` written as
/// `uint64`, label `item`.
pub open spec fn default_config() -> ConfigModel {
    ConfigModel {
        root_name: "FirecrackerMetrics"@,
        renames: seq![("SharedMetric"@, "uint64"@)],
        label_name: "item"@,
    }
}

impl Config {
    /// The default choices.
    pub fn new() -> (r: Config)
        ensures
            r@ == default_config(),
    {
        let r = Config {
            root_name: String::from_str("FirecrackerMetrics"),
            type_renames: vec![(String::from_str("SharedMetric"), String::from_str("uint64"))],
            label_name: String::from_str("item"),
        };
        assert(r@.renames =~= default_config().renames);
        r
    }
}

/// The Go type of a Rust type: the target of the first rename whose source
/// is that type, else the type itself.
pub open spec fn renamed(table: Seq<(Seq<char>, Seq<char>)>, t: Seq<char>) -> Seq<char>
    decreases table.len(),
{
    if table.len() == 0 {
        t
    } else if table[0].0 == t {
        table[0].1
    } else {
        renamed(table.skip(1), t)
    }
}

/// The Go type that stands for a Rust type name.
pub fn go_var_type(s: &String, config: &Config) -> (r: String)
    ensures
        r@ == renamed(config@.renames, s@),
{
    let table = &config.type_renames;
    let mut i: usize = 0;
    assert(config@.renames.skip(0) =~= config@.renames);
    while i < table.len()
        invariant
            i <= table@.len(),
            table@ == config.type_renames@,
            renamed(config@.renames, s@) == renamed(config@.renames.skip(i as int), s@),
        decreases table.len() - i,
    {
        let ghost rest = config@.renames.skip(i as int);
        let pair = &table[i];
        assert(config@.renames[i as int] == (pair.0@, pair.1@));
        assert(rest[0] == config@.renames[i as int]);
        if pair.0 == *s {
            return pair.1.clone();
        }
        assert(rest.skip(1) =~= config@.renames.skip(i + 1));
        i = i + 1;
    }
    assert(config@.renames.skip(i as int) =~= Seq::<(Seq<char>, Seq<char>)>::empty());
    s.clone()
}

/// Each comment behind a prefix.
pub open spec fn comment_lines(prefix: Seq<char>, comments: Seq<Seq<char>>) -> Seq<Seq<char>> {
    comments.map_values(|c: Seq<char>| prefix + c)
}

/// The Go member that stands for a field.
pub open spec fn member_line(f: FieldModel, renames: Seq<(Seq<char>, Seq<char>)>) -> Seq<char> {
    "    "@ + go_field_name(f.var_name) + " "@ + renamed(renames, f.var_type) + " "@ + json_tag_of(
        f.var_name,
    )
}

/// The member lines of the fields, each behind its comments.
pub open spec fn member_lines(fs: Seq<FieldModel>, renames: Seq<(Seq<char>, Seq<char>)>) -> Seq<
    Seq<char>,
>
    decreases fs.len(),
{
    if fs.len() == 0 {
        Seq::empty()
    } else {
        member_lines(fs.drop_last(), renames) + comment_lines("    //"@, fs.last().comments).push(
            member_line(fs.last(), renames),
        )
    }
}

/// The Go declaration of a struct, behind the given comments.
pub open spec fn struct_decl_lines(
    st: StructModel,
    comments: Seq<Seq<char>>,
    renames: Seq<(Seq<char>, Seq<char>)>,
) -> Seq<Seq<char>> {
    (comment_lines("// "@, comments).push("type "@ + st.name + " struct {"@) + member_lines(
        st.fields,
        renames,
    )).push("}"@).push(Seq::empty())
}

/// The name of the Go variable that holds a struct's metric.
pub open spec fn metric_var(st: StructModel) -> Seq<char> {
    lower_first(st.name)
}

/// The declaration of a struct's metric, a gauge vector with one label.
pub open spec fn declare_line(
    st: StructModel,
    name: Seq<char>,
    help: Seq<char>,
    label: Seq<char>,
) -> Seq<char> {
    metric_var(st) + " = prometheus.NewGaugeVec(prometheus.GaugeOpts{\n            Namespace: fcMetricsNS,\n            Name:      \""@
        + name + "\",\n            Help:      \""@ + help
        + "\",\n        },\n            []string{\""@ + label + "\"},\n        )"@
}

/// The registration of a struct's metric.
pub open spec fn register_line(st: StructModel) -> Seq<char> {
    "    prometheus.MustRegister("@ + metric_var(st) + ")"@
}

/// The statement that sets the value of one field's label.
pub open spec fn set_line(st: StructModel, f: FieldModel, field_name: Seq<char>) -> Seq<char> {
    "    "@ + metric_var(st) + ".WithLabelValues(\""@ + f.var_name + "\").Set(float64(fm."@
        + field_name + "."@ + go_field_name(f.var_name) + "))"@
}

/// The update statements of a struct's metric, read from the member
/// `field_name` of the root value `fm`.
pub open spec fn set_lines(st: StructModel, field_name: Seq<char>) -> Seq<Seq<char>> {
    (seq!["    // set metrics for "@ + st.name] + st.fields.map_values(
        |f: FieldModel| set_line(st, f, field_name),
    )).push(Seq::empty())
}

fn push_line(vec: &mut Vec<String>, s: String)
    ensures
        lines_of(final(vec)@) == lines_of(old(vec)@).push(s@),
{
    let ghost before = vec@;
    vec.push(s);
    assert(lines_of(vec@) =~= lines_of(before).push(s@));
}

/// `prefix + s` as a new string.
fn prefixed(prefix: &str, s: &str) -> (r: String)
    ensures
        r@ == prefix@ + s@,
{
    let mut r = String::from_str(prefix);
    r.append(s);
    r
}

fn push_comments(vec: &mut Vec<String>, prefix: &str, comments: &Vec<String>)
    ensures
        lines_of(final(vec)@) == lines_of(old(vec)@) + comment_lines(prefix@, lines_of(comments@)),
{
    let mut i: usize = 0;
    while i < comments.len()
        invariant
            i <= comments@.len(),
            lines_of(vec@) == lines_of(old(vec)@) + comment_lines(
                prefix@,
                lines_of(comments@.take(i as int)),
            ),
        decreases comments.len() - i,
    {
        let ghost before = lines_of(vec@);
        push_line(vec, prefixed(prefix, comments[i].as_str()));
        assert(comment_lines(prefix@, lines_of(comments@.take(i + 1))) =~= comment_lines(
            prefix@,
            lines_of(comments@.take(i as int)),
        ).push(prefix@ + comments@[i as int]@));
        assert(lines_of(vec@) =~= lines_of(old(vec)@) + comment_lines(
            prefix@,
            lines_of(comments@.take(i + 1)),
        ));
        i = i + 1;
    }
    assert(comments@.take(comments@.len() as int) =~= comments@);
}

fn member_text(f: &crate::schema::StructField, config: &Config) -> (r: String)
    ensures
        r@ == member_line(f@, config@.renames),
{
    let mut r = String::from_str("    ");
    r.append(rust_field_name_to_go(&f.var_name).as_str());
    r.append(" ");
    r.append(go_var_type(&f.var_type, config).as_str());
    r.append(" ");
    r.append(json_tag(&f.var_name).as_str());
    r
}

fn set_text(var: &String, f: &crate::schema::StructField, field_name: &String) -> (r: String)
    ensures
        r@ == "    "@ + var@ + ".WithLabelValues(\""@ + f.var_name@ + "\").Set(float64(fm."@
            + field_name@ + "."@ + go_field_name(f.var_name@) + "))"@,
{
    let mut r = String::from_str("    ");
    r.append(var.as_str());
    r.append(".WithLabelValues(\"");
    r.append(f.var_name.as_str());
    r.append("\").Set(float64(fm.");
    r.append(field_name.as_str());
    r.append(".");
    r.append(rust_field_name_to_go(&f.var_name).as_str());
    r.append("))");
    r
}

impl RustStruct {
    /// The Go variable that holds this struct's metric.
    pub fn metric_var_name(&self) -> (r: String)
        ensures
            r@ == metric_var(self@),
    {
        to_lowercase(self.name.as_str())
    }

    /// Appends the Go declaration of this struct, behind `comments`.
    pub fn generate_struct_definition_code(
        &self,
        vec: &mut Vec<String>,
        comments: &Vec<String>,
        config: &Config,
    )
        ensures
            lines_of(final(vec)@) == lines_of(old(vec)@) + struct_decl_lines(
                self@,
                lines_of(comments@),
                config@.renames,
            ),
    {
        push_comments(vec, "// ", comments);
        let mut head = String::from_str("type ");
        head.append(self.name.as_str());
        head.append(" struct {");
        push_line(vec, head);
        let ghost base = lines_of(vec@);
        let ghost fields = self@.fields;
        let mut i: usize = 0;
        assert(fields.take(0) =~= Seq::<FieldModel>::empty());
        assert(base + member_lines(fields.take(0), config@.renames) =~= base);
        while i < self.fields.len()
            invariant
                i <= self.fields@.len(),
                fields == self@.fields,
                lines_of(vec@) == base + member_lines(fields.take(i as int), config@.renames),
            decreases self.fields.len() - i,
        {
            let f = &self.fields[i];
            push_comments(vec, "    //", &f.comments);
            push_line(vec, member_text(f, config));
            assert(fields.take(i + 1).drop_last() =~= fields.take(i as int));
            assert(fields[i as int] == f@);
            assert(lines_of(vec@) =~= base + member_lines(fields.take(i + 1), config@.renames));
            i = i + 1;
        }
        assert(fields.take(fields.len() as int) =~= fields);
        push_line(vec, String::from_str("}"));
        push_line(vec, String::new());
        assert(lines_of(vec@) =~= lines_of(old(vec)@) + struct_decl_lines(
            self@,
            lines_of(comments@),
            config@.renames,
        ));
    }

    /// Appends the declaration of this struct's metric, named `name`, with
    /// help text `help`.
    pub fn generate_declare_metric_code(
        &self,
        vec: &mut Vec<String>,
        name: &String,
        help: &String,
        config: &Config,
    )
        ensures
            lines_of(final(vec)@) == lines_of(old(vec)@).push(
                declare_line(self@, name@, help@, config@.label_name),
            ).push(Seq::empty()),
    {
        let mut r = self.metric_var_name();
        r.append(
            " = prometheus.NewGaugeVec(prometheus.GaugeOpts{\n            Namespace: fcMetricsNS,\n            Name:      \"",
        );
        r.append(name.as_str());
        r.append("\",\n            Help:      \"");
        r.append(help.as_str());
        r.append("\",\n        },\n            []string{\"");
        r.append(config.label_name.as_str());
        r.append("\"},\n        )");
        push_line(vec, r);
        push_line(vec, String::new());
    }

    /// Appends the registration of this struct's metric.
    pub fn generate_register_code(&self, vec: &mut Vec<String>)
        ensures
            lines_of(final(vec)@) == lines_of(old(vec)@).push(register_line(self@)),
    {
        let mut r = String::from_str("    prometheus.MustRegister(");
        r.append(self.metric_var_name().as_str());
        r.append(")");
        push_line(vec, r);
    }

    /// Appends the statements that update this struct's metric from the
    /// member `field_name` of the root value.
    pub fn generate_set_values_code(&self, vec: &mut Vec<String>, field_name: &String)
        ensures
            lines_of(final(vec)@) == lines_of(old(vec)@) + set_lines(self@, field_name@),
    {
        push_line(vec, prefixed("    // set metrics for ", self.name.as_str()));
        let var = self.metric_var_name();
        let ghost base = lines_of(vec@);
        let ghost st = self@;
        let mut i: usize = 0;
        while i < self.fields.len()
            invariant
                i <= self.fields@.len(),
                st == self@,
                var@ == metric_var(st),
                lines_of(vec@) == base + st.fields.take(i as int).map_values(
                    |f: FieldModel| set_line(st, f, field_name@),
                ),
            decreases self.fields.len() - i,
        {
            let f = &self.fields[i];
            push_line(vec, set_text(&var, f, field_name));
            assert(st.fields[i as int] == f@);
            assert(lines_of(vec@) =~= base + st.fields.take(i + 1).map_values(
                |f: FieldModel| set_line(st, f, field_name@),
            ));
            i = i + 1;
        }
        assert(st.fields.take(st.fields.len() as int) =~= st.fields);
        push_line(vec, String::new());
        assert(lines_of(vec@) =~= lines_of(old(vec)@) + set_lines(self@, field_name@));
    }
}

/// The metric groups: each root field whose type names a struct of the
/// schema, with that struct, in the order of the root's fields.
pub open spec fn metric_groups(m: Map<Seq<char>, StructModel>, fields: Seq<FieldModel>) -> Seq<
    (FieldModel, StructModel),
>
    decreases fields.len(),
{
    if fields.len() == 0 {
        Seq::empty()
    } else {
        let prev = metric_groups(m, fields.drop_last());
        let f = fields.last();
        if m.contains_key(f.var_type) {
            prev.push((f, m[f.var_type]))
        } else {
            prev
        }
    }
}

pub open spec fn declare_all(groups: Seq<(FieldModel, StructModel)>, label: Seq<char>) -> Seq<
    Seq<char>,
>
    decreases groups.len(),
{
    if groups.len() == 0 {
        Seq::empty()
    } else {
        let (f, st) = groups.last();
        declare_all(groups.drop_last(), label).push(
            declare_line(st, f.var_name, help_text(st.comments), label),
        ).push(Seq::empty())
    }
}

pub open spec fn register_all(groups: Seq<(FieldModel, StructModel)>) -> Seq<Seq<char>> {
    groups.map_values(|g: (FieldModel, StructModel)| register_line(g.1))
}

pub open spec fn set_all(groups: Seq<(FieldModel, StructModel)>) -> Seq<Seq<char>>
    decreases groups.len(),
{
    if groups.len() == 0 {
        Seq::empty()
    } else {
        let (f, st) = groups.last();
        set_all(groups.drop_last()) + set_lines(st, go_field_name(f.var_name))
    }
}

/// The struct declarations of the metric groups, each behind the comments
/// of its root field.
pub open spec fn struct_all(
    groups: Seq<(FieldModel, StructModel)>,
    renames: Seq<(Seq<char>, Seq<char>)>,
) -> Seq<Seq<char>>
    decreases groups.len(),
{
    if groups.len() == 0 {
        Seq::empty()
    } else {
        let (f, st) = groups.last();
        struct_all(groups.drop_last(), renames) + struct_decl_lines(st, f.comments, renames)
    }
}

/// The four statement lists that fill the template.
pub struct Context {
    pub metrics_var_declare_stmt: Vec<String>,
    pub metrics_register_stmt: Vec<String>,
    pub metrics_set_stmt: Vec<String>,
    pub metrics_struct_declare_stmt: Vec<String>,
}

pub ghost struct ContextModel {
    pub var_declare: Seq<Seq<char>>,
    pub register: Seq<Seq<char>>,
    pub set: Seq<Seq<char>>,
    pub struct_declare: Seq<Seq<char>>,
}

impl View for Context {
    type V = ContextModel;

    open spec fn view(&self) -> ContextModel {
        ContextModel {
            var_declare: lines_of(self.metrics_var_declare_stmt@),
            register: lines_of(self.metrics_register_stmt@),
            set: lines_of(self.metrics_set_stmt@),
            struct_declare: lines_of(self.metrics_struct_declare_stmt@),
        }
    }
}

/// The statements generated from a schema: nothing when it lacks the root;
/// else the root's declaration and, for each metric group, its declaration,
/// metric, registration and updates.
pub open spec fn lowered(m: Map<Seq<char>, StructModel>, config: ConfigModel) -> ContextModel {
    if !m.contains_key(config.root_name) {
        ContextModel {
            var_declare: Seq::empty(),
            register: Seq::empty(),
            set: Seq::empty(),
            struct_declare: Seq::empty(),
        }
    } else {
        let root = m[config.root_name];
        let groups = metric_groups(m, root.fields);
        ContextModel {
            var_declare: declare_all(groups, config.label_name),
            register: register_all(groups),
            set: set_all(groups),
            struct_declare: struct_decl_lines(root, root.comments, config.renames) + struct_all(
                groups,
                config.renames,
            ),
        }
    }
}

/// Links the root struct to its metric groups and generates the statements.
pub fn parse_source_tree(struct_list: &StructList, config: &Config) -> (r: Context)
    requires
        struct_list.wf(),
    ensures
        r@ == lowered(struct_list@, config@),
{
    let mut var_declare: Vec<String> = Vec::new();
    let mut register: Vec<String> = Vec::new();
    let mut set: Vec<String> = Vec::new();
    let mut struct_declare: Vec<String> = Vec::new();
    let ghost m = struct_list@;
    assert(lines_of(struct_declare@) =~= Seq::<Seq<char>>::empty());
    assert(lines_of(register@) =~= Seq::<Seq<char>>::empty());
    match struct_list.get(&config.root_name) {
        Some(root) => {
            root.generate_struct_definition_code(&mut struct_declare, &root.comments, config);
            let ghost base = lines_of(struct_declare@);
            let ghost fields = root@.fields;
            let mut i: usize = 0;
            assert(fields.take(0) =~= Seq::<FieldModel>::empty());
            assert(base + struct_all(Seq::empty(), config@.renames) =~= base);
            assert(register_all(Seq::empty()) =~= Seq::<Seq<char>>::empty());
            while i < root.fields.len()
                invariant
                    struct_list.wf(),
                    m == struct_list@,
                    i <= root.fields@.len(),
                    fields == root@.fields,
                    lines_of(var_declare@) == declare_all(
                        metric_groups(m, fields.take(i as int)),
                        config@.label_name,
                    ),
                    lines_of(register@) == register_all(metric_groups(m, fields.take(i as int))),
                    lines_of(set@) == set_all(metric_groups(m, fields.take(i as int))),
                    lines_of(struct_declare@) == base + struct_all(
                        metric_groups(m, fields.take(i as int)),
                        config@.renames,
                    ),
                decreases root.fields.len() - i,
            {
                let f = &root.fields[i];
                let ghost prev = metric_groups(m, fields.take(i as int));
                assert(fields.take(i + 1).drop_last() =~= fields.take(i as int));
                assert(fields[i as int] == f@);
                match struct_list.get(&f.var_type) {
                    Some(metric_struct) => {
                        let ghost groups = prev.push((f@, metric_struct@));
                        assert(metric_groups(m, fields.take(i + 1)) == groups);
                        assert(groups.drop_last() =~= prev);
                        metric_struct.generate_struct_definition_code(
                            &mut struct_declare,
                            &f.comments,
                            config,
                        );
                        let help = help_of(&metric_struct.comments);
                        metric_struct.generate_declare_metric_code(
                            &mut var_declare,
                            &f.var_name,
                            &help,
                            config,
                        );
                        metric_struct.generate_register_code(&mut register);
                        metric_struct.generate_set_values_code(
                            &mut set,
                            &rust_field_name_to_go(&f.var_name),
                        );
                        assert(register_all(groups) =~= register_all(prev).push(
                            register_line(metric_struct@),
                        ));
                        assert(lines_of(struct_declare@) =~= base + struct_all(
                            groups,
                            config@.renames,
                        ));
                    },
                    None => {},
                }
                i = i + 1;
            }
            assert(fields.take(fields.len() as int) =~= fields);
            assert(lines_of(struct_declare@) =~= struct_decl_lines(
                root@,
                root@.comments,
                config@.renames,
            ) + struct_all(metric_groups(m, fields), config@.renames));
        },
        None => {
            assert(lines_of(var_declare@) =~= Seq::<Seq<char>>::empty());
            assert(lines_of(set@) =~= Seq::<Seq<char>>::empty());
        },
    }
    Context {
        metrics_var_declare_stmt: var_declare,
        metrics_register_stmt: register,
        metrics_set_stmt: set,
        metrics_struct_declare_stmt: struct_declare,
    }
}

/// With the default choices, `SharedMetric` becomes `uint64` and every other
/// type name is kept.
pub proof fn lemma_default_renames(t: Seq<char>)
    ensures
        renamed(default_config().renames, t) == (if t == "SharedMetric"@ {
            "uint64"@
        } else {
            t
        }),
{
    let table = default_config().renames;
    assert(table.skip(1) =~= Seq::<(Seq<char>, Seq<char>)>::empty());
    assert(renamed(table.skip(1), t) == t);
    assert(table[0] == ("SharedMetric"@, "uint64"@));
}

/// Each field of a struct has its member line in the struct's declaration;
/// with the default choices its Go type is `uint64` for `SharedMetric` and its
/// own type name otherwise.
pub proof fn lemma_member_line_declared(
    st: StructModel,
    comments: Seq<Seq<char>>,
    renames: Seq<(Seq<char>, Seq<char>)>,
    i: int,
)
    requires
        0 <= i < st.fields.len(),
    ensures
        struct_decl_lines(st, comments, renames).contains(member_line(st.fields[i], renames)),
        renames == default_config().renames ==> member_line(st.fields[i], renames) == "    "@
            + go_field_name(st.fields[i].var_name) + " "@ + (if st.fields[i].var_type
            == "SharedMetric"@ {
            "uint64"@
        } else {
            st.fields[i].var_type
        }) + " "@ + json_tag_of(st.fields[i].var_name),
{
    lemma_member_lines_contain(st.fields, renames, i);
    lemma_default_renames(st.fields[i].var_type);
    let head = comment_lines("// "@, comments).push("type "@ + st.name + " struct {"@);
    let body = member_lines(st.fields, renames);
    let k = choose|k: int| 0 <= k < body.len() && body[k] == member_line(st.fields[i], renames);
    let all = struct_decl_lines(st, comments, renames);
    assert(all[head.len() + k] == body[k]);
}

proof fn lemma_member_lines_contain(
    fs: Seq<FieldModel>,
    renames: Seq<(Seq<char>, Seq<char>)>,
    i: int,
)
    requires
        0 <= i < fs.len(),
    ensures
        member_lines(fs, renames).contains(member_line(fs[i], renames)),
    decreases fs.len(),
{
    let p = fs.drop_last();
    let prev = member_lines(p, renames);
    let tail = comment_lines("    //"@, fs.last().comments).push(member_line(fs.last(), renames));
    if i < fs.len() - 1 {
        lemma_member_lines_contain(p, renames, i);
        assert(fs[i] == p[i]);
        let k = choose|k: int| 0 <= k < prev.len() && prev[k] == member_line(p[i], renames);
        assert((prev + tail)[k] == prev[k]);
    } else {
        assert(fs[i] == fs.last());
        assert((prev + tail)[prev.len() + tail.len() - 1] == tail.last());
    }
}

/// A schema without the root struct gives four empty statement lists.
pub proof fn lemma_no_root_no_statements(items: Seq<crate::schema::Decl>, config: ConfigModel)
    requires
        !crate::schema::extract(items).contains_key(config.root_name),
    ensures
        lowered(crate::schema::extract(items), config).var_declare.len() == 0,
        lowered(crate::schema::extract(items), config).register.len() == 0,
        lowered(crate::schema::extract(items), config).set.len() == 0,
        lowered(crate::schema::extract(items), config).struct_declare.len() == 0,
{
}

/// Every metric group pairs a root field with the struct that its type names.
pub proof fn lemma_groups_resolve(m: Map<Seq<char>, StructModel>, fields: Seq<FieldModel>, j: int)
    requires
        0 <= j < metric_groups(m, fields).len(),
    ensures
        m.contains_key(metric_groups(m, fields)[j].0.var_type),
        metric_groups(m, fields)[j].1 == m[metric_groups(m, fields)[j].0.var_type],
        fields.contains(metric_groups(m, fields)[j].0),
    decreases fields.len(),
{
    let p = fields.drop_last();
    if j < metric_groups(m, p).len() {
        lemma_groups_resolve(m, p, j);
        let k = choose|k: int| 0 <= k < p.len() && p[k] == metric_groups(m, p)[j].0;
        assert(fields[k] == p[k]);
    } else {
        assert(fields[fields.len() - 1] == fields.last());
    }
}

/// A root field whose type names no struct of the schema makes no metric
/// group: the groups are the same without it.
pub proof fn lemma_unresolved_field_ignored(
    m: Map<Seq<char>, StructModel>,
    fields: Seq<FieldModel>,
    i: int,
)
    requires
        0 <= i < fields.len(),
        !m.contains_key(fields[i].var_type),
    ensures
        metric_groups(m, fields.remove(i)) == metric_groups(m, fields),
    decreases fields.len(),
{
    if i == fields.len() - 1 {
        assert(fields.remove(i) =~= fields.drop_last());
    } else {
        let p = fields.drop_last();
        lemma_unresolved_field_ignored(m, p, i);
        assert(fields.remove(i).drop_last() =~= p.remove(i));
        assert(fields.remove(i).last() == fields.last());
    }
}

} // verus!
