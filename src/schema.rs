//! The schema: the declarations read from a source file, and the structs and
//! fields extracted from them.
use vstd::prelude::*;
use vstd::string::*;

use crate::text::{doc_text, lines_of, strip_comment};

verus! {

/// An attribute of a declaration: the first segment of its path and its
/// tokens as text (a doc comment reads `doc` and `= "<text>"`).
pub struct Attr {
    pub path_head: String,
    pub tokens: String,
}

/// The type of a field: a path, with its segments, or any other type.
pub enum FieldType {
    Path(Vec<String>),
    Other,
}

/// A named field of a struct declaration.
pub struct FieldDecl {
    pub name: String,
    pub is_pub: bool,
    pub ty: FieldType,
    pub attrs: Vec<Attr>,
}

/// The fields of a struct declaration.
pub enum StructBody {
    Named(Vec<FieldDecl>),
    Tuple,
    Unit,
}

/// A struct declaration.
pub struct StructDecl {
    pub name: String,
    pub attrs: Vec<Attr>,
    pub body: StructBody,
}

/// A top-level declaration of a source file.
pub enum Decl {
    Struct(StructDecl),
    Other,
}

/// A field kept in the schema.
pub struct StructField {
    pub var_name: String,
    pub var_type: String,
    pub comments: Vec<String>,
}

pub ghost struct FieldModel {
    pub var_name: Seq<char>,
    pub var_type: Seq<char>,
    pub comments: Seq<Seq<char>>,
}

impl View for StructField {
    type V = FieldModel;

    open spec fn view(&self) -> FieldModel {
        FieldModel {
            var_name: self.var_name@,
            var_type: self.var_type@,
            comments: lines_of(self.comments@),
        }
    }
}

/// A struct kept in the schema.
pub struct RustStruct {
    pub comments: Vec<String>,
    pub name: String,
    pub fields: Vec<StructField>,
}

pub ghost struct StructModel {
    pub name: Seq<char>,
    pub comments: Seq<Seq<char>>,
    pub fields: Seq<FieldModel>,
}

impl View for RustStruct {
    type V = StructModel;

    open spec fn view(&self) -> StructModel {
        StructModel {
            name: self.name@,
            comments: lines_of(self.comments@),
            fields: self.fields@.map_values(|f: StructField| f@),
        }
    }
}

/// The texts of the well-formed doc attributes, in order.
pub open spec fn doc_comments(attrs: Seq<Attr>) -> Seq<Seq<char>>
    decreases attrs.len(),
{
    if attrs.len() == 0 {
        Seq::empty()
    } else {
        let prev = doc_comments(attrs.drop_last());
        let a = attrs.last();
        if a.path_head@ == "doc"@ && doc_text(a.tokens@) is Some {
            prev.push(doc_text(a.tokens@)->Some_0)
        } else {
            prev
        }
    }
}

/// A field is kept when it is public and its type is a path; its type is
/// the first segment of that path.
pub open spec fn field_model(d: FieldDecl) -> Option<FieldModel> {
    if d.is_pub && d.ty is Path && (d.ty->Path_0)@.len() > 0 {
        Some(
            FieldModel {
                var_name: d.name@,
                var_type: (d.ty->Path_0)@[0]@,
                comments: doc_comments(d.attrs@),
            },
        )
    } else {
        None
    }
}

/// The kept fields, in declaration order.
pub open spec fn kept_fields(ds: Seq<FieldDecl>) -> Seq<FieldModel>
    decreases ds.len(),
{
    if ds.len() == 0 {
        Seq::empty()
    } else {
        let prev = kept_fields(ds.drop_last());
        match field_model(ds.last()) {
            Some(f) => prev.push(f),
            None => prev,
        }
    }
}

/// A struct is kept when it has at least one named field.
pub open spec fn struct_model(s: StructDecl) -> Option<StructModel> {
    match s.body {
        StructBody::Named(fs) => if fs@.len() > 0 {
            Some(
                StructModel {
                    name: s.name@,
                    comments: doc_comments(s.attrs@),
                    fields: kept_fields(fs@),
                },
            )
        } else {
            None
        },
        _ => None,
    }
}

/// The schema of a file: each kept struct by name; of two structs with one
/// name, the later one.
pub open spec fn extract(items: Seq<Decl>) -> Map<Seq<char>, StructModel>
    decreases items.len(),
{
    if items.len() == 0 {
        Map::empty()
    } else {
        let prev = extract(items.drop_last());
        match items.last() {
            Decl::Struct(s) => match struct_model(s) {
                Some(m) => prev.insert(m.name, m),
                None => prev,
            },
            Decl::Other => prev,
        }
    }
}

fn doc_comments_of(attrs: &Vec<Attr>) -> (r: Vec<String>)
    ensures
        lines_of(r@) == doc_comments(attrs@),
{
    let doc = String::from_str("doc");
    let mut r: Vec<String> = Vec::new();
    let mut i: usize = 0;
    while i < attrs.len()
        invariant
            i <= attrs@.len(),
            doc@ == "doc"@,
            lines_of(r@) == doc_comments(attrs@.take(i as int)),
        decreases attrs.len() - i,
    {
        assert(attrs@.take(i + 1).drop_last() =~= attrs@.take(i as int));
        let a = &attrs[i];
        if a.path_head == doc {
            match strip_comment(&a.tokens) {
                Some(t) => {
                    let ghost before = r@;
                    r.push(t);
                    assert(lines_of(r@) =~= lines_of(before).push(t@));
                },
                None => {},
            }
        }
        i = i + 1;
    }
    assert(attrs@.take(attrs@.len() as int) =~= attrs@);
    r
}

fn field_of(d: &FieldDecl) -> (r: Option<StructField>)
    ensures
        match r {
            Some(f) => field_model(*d) == Some(f@),
            None => field_model(*d) is None,
        },
{
    if !d.is_pub {
        return None;
    }
    match &d.ty {
        FieldType::Path(segments) => {
            if segments.len() == 0 {
                return None;
            }
            Some(
                StructField {
                    var_name: d.name.clone(),
                    var_type: segments[0].clone(),
                    comments: doc_comments_of(&d.attrs),
                },
            )
        },
        FieldType::Other => None,
    }
}

fn struct_of(s: &StructDecl) -> (r: Option<RustStruct>)
    ensures
        match r {
            Some(st) => struct_model(*s) == Some(st@),
            None => struct_model(*s) is None,
        },
{
    let fs = match &s.body {
        StructBody::Named(fs) => fs,
        _ => {
            return None;
        },
    };
    if fs.len() == 0 {
        return None;
    }
    let mut fields: Vec<StructField> = Vec::new();
    let mut i: usize = 0;
    while i < fs.len()
        invariant
            i <= fs@.len(),
            fields@.map_values(|f: StructField| f@) == kept_fields(fs@.take(i as int)),
        decreases fs.len() - i,
    {
        assert(fs@.take(i + 1).drop_last() =~= fs@.take(i as int));
        match field_of(&fs[i]) {
            Some(f) => {
                let ghost before = fields@;
                fields.push(f);
                assert(fields@.map_values(|f: StructField| f@) =~= before.map_values(
                    |f: StructField| f@,
                ).push(f@));
            },
            None => {},
        }
        i = i + 1;
    }
    assert(fs@.take(fs@.len() as int) =~= fs@);
    Some(RustStruct { comments: doc_comments_of(&s.attrs), name: s.name.clone(), fields })
}

/// The models of a list of structs.
pub open spec fn models(v: Seq<RustStruct>) -> Seq<StructModel> {
    v.map_values(|s: RustStruct| s@)
}

/// Each struct by name; of two with one name, the later one.
pub open spec fn index_of(e: Seq<StructModel>) -> Map<Seq<char>, StructModel>
    decreases e.len(),
{
    if e.len() == 0 {
        Map::empty()
    } else {
        index_of(e.drop_last()).insert(e.last().name, e.last())
    }
}

pub open spec fn names_unique(e: Seq<StructModel>) -> bool {
    forall|i: int, j: int| 0 <= i < j < e.len() ==> e[i].name != e[j].name
}

proof fn lemma_index_dom(e: Seq<StructModel>)
    ensures
        forall|k: Seq<char>|
            index_of(e).contains_key(k) <==> (exists|i: int| 0 <= i < e.len() && e[i].name == k),
    decreases e.len(),
{
    if e.len() > 0 {
        let p = e.drop_last();
        lemma_index_dom(p);
        assert(index_of(e) == index_of(p).insert(e.last().name, e.last()));
        assert forall|k: Seq<char>|
            index_of(e).contains_key(k) <==> (exists|i: int| 0 <= i < e.len() && e[i].name == k) by {
            if index_of(e).contains_key(k) {
                if k == e.last().name {
                    assert(e[e.len() - 1].name == k);
                } else {
                    assert(index_of(p).contains_key(k));
                    let i = choose|i: int| 0 <= i < p.len() && p[i].name == k;
                    assert(e[i] == p[i]);
                }
            }
            if exists|i: int| 0 <= i < e.len() && e[i].name == k {
                let i = choose|i: int| 0 <= i < e.len() && e[i].name == k;
                if i < e.len() - 1 {
                    assert(p[i] == e[i]);
                }
            }
        }
    }
}

proof fn lemma_index_at(e: Seq<StructModel>, i: int)
    requires
        names_unique(e),
        0 <= i < e.len(),
    ensures
        index_of(e).contains_key(e[i].name),
        index_of(e)[e[i].name] == e[i],
    decreases e.len(),
{
    if i < e.len() - 1 {
        let p = e.drop_last();
        lemma_index_at(p, i);
        assert(p[i] == e[i]);
    }
}

proof fn lemma_index_update(e: Seq<StructModel>, i: int, x: StructModel)
    requires
        names_unique(e),
        0 <= i < e.len(),
        e[i].name == x.name,
    ensures
        index_of(e.update(i, x)) == index_of(e).insert(x.name, x),
    decreases e.len(),
{
    let p = e.drop_last();
    if i == e.len() - 1 {
        assert(e.update(i, x).drop_last() =~= p);
        assert(index_of(e.update(i, x)) =~= index_of(e).insert(x.name, x));
    } else {
        assert(e.update(i, x).drop_last() =~= p.update(i, x));
        lemma_index_update(p, i, x);
        assert(e[e.len() - 1].name != e[i].name);
        assert(index_of(e.update(i, x)) =~= index_of(e).insert(x.name, x));
    }
}

/// The extracted structs, looked up by name. Names are unique.
pub struct StructList {
    entries: Vec<RustStruct>,
}

impl View for StructList {
    type V = Map<Seq<char>, StructModel>;

    closed spec fn view(&self) -> Map<Seq<char>, StructModel> {
        index_of(models(self.entries@))
    }
}

proof fn lemma_index_names(e: Seq<StructModel>, k: Seq<char>)
    requires
        index_of(e).contains_key(k),
    ensures
        index_of(e)[k].name == k,
    decreases e.len(),
{
    if e.len() > 0 && e.last().name != k {
        lemma_index_names(e.drop_last(), k);
    }
}

impl StructList {
    pub closed spec fn wf(&self) -> bool {
        names_unique(models(self.entries@))
    }

    /// Each name is the key of a struct of that name.
    pub proof fn lemma_keys_are_names(&self, k: Seq<char>)
        requires
            self@.contains_key(k),
        ensures
            self@[k].name == k,
    {
        lemma_index_names(models(self.entries@), k);
    }

    /// An empty list.
    pub fn new() -> (r: StructList)
        ensures
            r.wf(),
            r@ == Map::<Seq<char>, StructModel>::empty(),
    {
        StructList { entries: Vec::new() }
    }

    /// The struct of the given name.
    pub fn get(&self, name: &String) -> (r: Option<&RustStruct>)
        requires
            self.wf(),
        ensures
            match r {
                Some(s) => self@.contains_key(name@) && s@ == self@[name@],
                None => !self@.contains_key(name@),
            },
    {
        let ghost e = models(self.entries@);
        let mut i: usize = 0;
        while i < self.entries.len()
            invariant
                i <= self.entries@.len(),
                e == models(self.entries@),
                names_unique(e),
                forall|j: int| 0 <= j < i ==> e[j].name != name@,
            decreases self.entries.len() - i,
        {
            if self.entries[i].name == *name {
                proof {
                    lemma_index_at(e, i as int);
                }
                return Some(&self.entries[i]);
            }
            i = i + 1;
        }
        proof {
            lemma_index_dom(e);
        }
        None
    }

    /// Adds a struct; one already held under the same name is replaced.
    pub fn insert(&mut self, s: RustStruct)
        requires
            old(self).wf(),
        ensures
            final(self).wf(),
            final(self)@ == old(self)@.insert(s@.name, s@),
    {
        let ghost e = models(self.entries@);
        let mut i: usize = 0;
        while i < self.entries.len()
            invariant
                i <= self.entries@.len(),
                e == models(self.entries@),
                self.entries@ == old(self).entries@,
                names_unique(e),
                forall|j: int| 0 <= j < i ==> e[j].name != s@.name,
            decreases self.entries.len() - i,
        {
            if self.entries[i].name == s.name {
                let ghost x = s@;
                assert(e[i as int] == self.entries@[i as int]@);
                self.entries.set(i, s);
                proof {
                    assert(models(self.entries@) =~= e.update(i as int, x));
                    lemma_index_update(e, i as int, x);
                }
                return;
            }
            i = i + 1;
        }
        let ghost x = s@;
        self.entries.push(s);
        assert(models(self.entries@) =~= e.push(x));
        assert(models(self.entries@).drop_last() =~= e);
    }
}

/// Extracts the schema from the declarations of a source file.
pub fn parse_source_code(items: &Vec<Decl>) -> (r: StructList)
    ensures
        r.wf(),
        r@ == extract(items@),
{
    let mut list = StructList::new();
    let mut i: usize = 0;
    while i < items.len()
        invariant
            i <= items@.len(),
            list.wf(),
            list@ == extract(items@.take(i as int)),
        decreases items.len() - i,
    {
        assert(items@.take(i + 1).drop_last() =~= items@.take(i as int));
        match &items[i] {
            Decl::Struct(s) => match struct_of(s) {
                Some(st) => {
                    list.insert(st);
                },
                None => {},
            },
            Decl::Other => {},
        }
        i = i + 1;
    }
    assert(items@.take(items@.len() as int) =~= items@);
    list
}

proof fn lemma_kept_from(ds: Seq<FieldDecl>, j: int)
    requires
        0 <= j < kept_fields(ds).len(),
    ensures
        exists|l: int| 0 <= l < ds.len() && field_model(ds[l]) == Some(kept_fields(ds)[j]),
    decreases ds.len(),
{
    let p = ds.drop_last();
    if j < kept_fields(p).len() {
        lemma_kept_from(p, j);
        let l = choose|l: int| 0 <= l < p.len() && field_model(p[l]) == Some(kept_fields(p)[j]);
        assert(ds[l] == p[l]);
    } else {
        assert(ds[ds.len() - 1] == ds.last());
    }
}

proof fn lemma_extract_from(items: Seq<Decl>, k: Seq<char>)
    requires
        extract(items).contains_key(k),
    ensures
        extract(items)[k].name == k,
        exists|i: int|
            0 <= i < items.len() && items[i] is Struct && struct_model(items[i]->Struct_0) == Some(
                extract(items)[k],
            ),
    decreases items.len(),
{
    let p = items.drop_last();
    let last_matches = match items.last() {
        Decl::Struct(s) => struct_model(s) is Some && struct_model(s)->Some_0.name == k,
        Decl::Other => false,
    };
    if last_matches {
        assert(items[items.len() - 1] == items.last());
    } else {
        lemma_extract_from(p, k);
        let i = choose|i: int|
            0 <= i < p.len() && p[i] is Struct && struct_model(p[i]->Struct_0) == Some(
                extract(p)[k],
            );
        assert(items[i] == p[i]);
    }
}

/// The `l`-th named field of the `i`-th declaration, with the name of its
/// struct.
pub open spec fn declared_field(items: Seq<Decl>, i: int, l: int) -> Option<(Seq<char>, FieldDecl)> {
    if 0 <= i < items.len() {
        match items[i] {
            Decl::Struct(s) => match s.body {
                StructBody::Named(fs) => if 0 <= l < fs@.len() {
                    Some((s.name@, fs@[l]))
                } else {
                    None
                },
                _ => None,
            },
            Decl::Other => None,
        }
    } else {
        None
    }
}

/// Every field of an extracted struct stands for a public, path-typed field
/// of a struct declaration of that name.
pub proof fn lemma_fields_public_paths(items: Seq<Decl>, k: Seq<char>, j: int)
    requires
        extract(items).contains_key(k),
        0 <= j < extract(items)[k].fields.len(),
    ensures
        exists|i: int, l: int|
            #[trigger] declared_field(items, i, l) matches Some((name, d)) && name == k && d.is_pub
                && d.ty is Path && field_model(d) == Some(extract(items)[k].fields[j]),
{
    lemma_extract_from(items, k);
    let i = choose|i: int|
        0 <= i < items.len() && items[i] is Struct && struct_model(items[i]->Struct_0) == Some(
            extract(items)[k],
        );
    let s = items[i]->Struct_0;
    let fs = (s.body->Named_0)@;
    lemma_kept_from(fs, j);
    let l = choose|l: int| 0 <= l < fs.len() && field_model(fs[l]) == Some(kept_fields(fs)[j]);
    assert(declared_field(items, i, l) == Some((k, fs[l])));
}

} // verus!
