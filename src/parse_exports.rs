use vstd::prelude::*;

use crate::compiler::{join_code, join_with, quoted, views};
use crate::model::{
    any_malformed, is_malformed, BindingPattern, ExportNamed, ExportedDecl, MalformedExport,
    ModuleItem,
};

verus! {

/// One name that a module exports.
#[derive(Debug)]
pub enum Export {
    Name(String),
    /// `export * from "..."`
    Wildcard,
    /// `export default ...`
    Default,
}

/// The names bound by a binding pattern, in source order.
pub open spec fn pattern_names(p: BindingPattern) -> Seq<String>
    decreases p,
{
    match p {
        BindingPattern::Identifier(n) => seq![n],
        BindingPattern::Object(ps) => patterns_names(ps@),
        BindingPattern::Array(es) => elements_names(es@),
        BindingPattern::Assignment(b) => pattern_names(*b),
    }
}

/// The names bound by each pattern of `ps`, in order.
pub open spec fn patterns_names(ps: Seq<BindingPattern>) -> Seq<String>
    decreases ps,
{
    if ps.len() == 0 {
        seq![]
    } else {
        patterns_names(ps.drop_last()) + pattern_names(ps.last())
    }
}

/// The names bound by the elements of an array pattern, holes binding none.
pub open spec fn elements_names(es: Seq<Option<BindingPattern>>) -> Seq<String>
    decreases es,
{
    if es.len() == 0 {
        seq![]
    } else {
        elements_names(es.drop_last()) + match es.last() {
            Some(p) => pattern_names(p),
            None => seq![],
        }
    }
}

/// The name that a declaration other than a variable declaration binds.
pub open spec fn single_name(d: ExportedDecl) -> Option<String> {
    match d {
        ExportedDecl::Function(n) => n,
        ExportedDecl::Class(n) => n,
        ExportedDecl::TypeAlias(d) => Some(d.name),
        ExportedDecl::Interface(d) => Some(d.name),
        ExportedDecl::Enum(n) => Some(n),
        ExportedDecl::Module(n) => Some(n),
        ExportedDecl::ImportEquals(n) => Some(n),
        ExportedDecl::Variable(_) => None,
    }
}

/// Each name as an export.
pub open spec fn as_exports(names: Seq<String>) -> Seq<Export> {
    names.map_values(|n: String| Export::Name(n))
}

/// The exports of an inline declaration.
pub open spec fn declaration_exports(d: Option<ExportedDecl>) -> Seq<Export> {
    match d {
        None => seq![],
        Some(ExportedDecl::Variable(ps)) => as_exports(patterns_names(ps@)),
        Some(d) => match single_name(d) {
            Some(n) => seq![Export::Name(n)],
            None => seq![],
        },
    }
}

/// The exports of one export statement, in source order.
pub open spec fn item_exports(item: ModuleItem) -> Seq<Export> {
    match item {
        ModuleItem::Named(n) => declaration_exports(n.declaration) + as_exports(n.specifiers@),
        ModuleItem::Default => seq![Export::Default],
        ModuleItem::All => seq![Export::Wildcard],
    }
}

/// The exports of a module's export statements, in source order.
pub open spec fn exports_of(items: Seq<ModuleItem>) -> Seq<Export>
    decreases items.len(),
{
    if items.len() == 0 {
        seq![]
    } else {
        exports_of(items.drop_last()) + item_exports(items.last())
    }
}

/// The name that a declaration other than a variable declaration binds: an
/// anonymous function or class binds none.
pub fn name_of_single_decl(it: &ExportedDecl) -> (r: Option<String>)
    requires
        !(it is Variable),
    ensures
        r == single_name(*it),
{
    match it {
        ExportedDecl::Function(n) => n.clone(),
        ExportedDecl::Class(n) => n.clone(),
        ExportedDecl::TypeAlias(d) => Some(d.name.clone()),
        ExportedDecl::Interface(d) => Some(d.name.clone()),
        ExportedDecl::Enum(n) => Some(n.clone()),
        ExportedDecl::Module(n) => Some(n.clone()),
        ExportedDecl::ImportEquals(n) => Some(n.clone()),
        ExportedDecl::Variable(_) => None,
    }
}

/// The names bound by a binding pattern, in source order.
pub fn names_of_binding_pattern_kind(it: &BindingPattern) -> (r: Vec<String>)
    ensures
        r@ == pattern_names(*it),
    decreases it,
{
    match it {
        BindingPattern::Identifier(n) => {
            let mut r = Vec::new();
            r.push(n.clone());
            assert(r@ =~= seq![*n]);
            r
        },
        BindingPattern::Object(ps) => names_of_patterns(ps),
        BindingPattern::Array(es) => names_of_elements(es),
        BindingPattern::Assignment(b) => names_of_binding_pattern_kind(b),
    }
}

/// The names bound by each pattern of `ps`, in order: for a variable
/// declaration, the names of all its declarators.
pub fn names_of_patterns(ps: &Vec<BindingPattern>) -> (r: Vec<String>)
    ensures
        r@ == patterns_names(ps@),
    decreases ps,
{
    let mut out: Vec<String> = Vec::new();
    let mut i: usize = 0;
    assert(ps@.take(0) =~= Seq::<BindingPattern>::empty());
    while i < ps.len()
        invariant
            0 <= i <= ps.len(),
            out@ == patterns_names(ps@.take(i as int)),
        decreases ps.len() - i,
    {
        proof {
            assert(ps@.take(i + 1).drop_last() =~= ps@.take(i as int));
            assert(ps@.take(i + 1).last() == ps@[i as int]);
            assert(decreases_to!(ps => ps[i as int]));
        }
        let mut names = names_of_binding_pattern_kind(&ps[i]);
        out.append(&mut names);
        i += 1;
    }
    assert(ps@.take(ps.len() as int) =~= ps@);
    out
}

fn names_of_elements(es: &Vec<Option<BindingPattern>>) -> (r: Vec<String>)
    ensures
        r@ == elements_names(es@),
    decreases es,
{
    let mut out: Vec<String> = Vec::new();
    let mut i: usize = 0;
    assert(es@.take(0) =~= Seq::<Option<BindingPattern>>::empty());
    while i < es.len()
        invariant
            0 <= i <= es.len(),
            out@ == elements_names(es@.take(i as int)),
        decreases es.len() - i,
    {
        proof {
            assert(es@.take(i + 1).drop_last() =~= es@.take(i as int));
            assert(es@.take(i + 1).last() == es@[i as int]);
            assert(decreases_to!(es => es[i as int]));
        }
        match &es[i] {
            Some(p) => {
                let mut names = names_of_binding_pattern_kind(p);
                out.append(&mut names);
            },
            None => {
                assert(out@ =~= out@ + Seq::<String>::empty());
            },
        }
        i += 1;
    }
    assert(es@.take(es.len() as int) =~= es@);
    out
}

/// Pushes each name as an export.
fn push_names(out: &mut Vec<Export>, names: &Vec<String>)
    ensures
        final(out)@ == old(out)@ + as_exports(names@),
{
    let ghost start = out@;
    let mut i: usize = 0;
    while i < names.len()
        invariant
            0 <= i <= names.len(),
            out@ == start + as_exports(names@.take(i as int)),
        decreases names.len() - i,
    {
        out.push(Export::Name(names[i].clone()));
        assert(as_exports(names@.take(i + 1)) =~= as_exports(names@.take(i as int)).push(
            Export::Name(names@[i as int]),
        ));
        i += 1;
    }
    assert(names@.take(names.len() as int) =~= names@);
}

/// The exports of a named export statement, after its inline declaration.
fn push_named(out: &mut Vec<Export>, n: &ExportNamed)
    ensures
        final(out)@ == old(out)@ + declaration_exports(n.declaration) + as_exports(
            n.specifiers@,
        ),
{
    let ghost start = out@;
    match &n.declaration {
        None => {
            assert(out@ =~= start + declaration_exports(n.declaration));
        },
        Some(ExportedDecl::Variable(ps)) => {
            let names = names_of_patterns(ps);
            push_names(out, &names);
        },
        Some(d) => match name_of_single_decl(d) {
            Some(name) => {
                out.push(Export::Name(name));
                assert(out@ =~= start + declaration_exports(n.declaration));
            },
            None => {
                assert(out@ =~= start + declaration_exports(n.declaration));
            },
        },
    }
    push_names(out, &n.specifiers);
    assert(out@ =~= start + declaration_exports(n.declaration) + as_exports(n.specifiers@));
}

/// Collects the names that a module exports.
pub struct ParseExports {
    exports: Vec<Export>,
}

impl ParseExports {
    /// The exports collected so far.
    pub closed spec fn collected(&self) -> Seq<Export> {
        self.exports@
    }

    /// A collector that has seen no export statement.
    pub fn new() -> (r: ParseExports)
        ensures
            r.collected() == Seq::<Export>::empty(),
    {
        ParseExports { exports: Vec::new() }
    }

    /// The names that `input` exports after those collected so far, in
    /// source order: `*` for each `export *`, `default` for each default
    /// export. Fails when a named export both declares a binding and lists
    /// specifiers.
    pub fn parse(self, input: &Vec<ModuleItem>) -> (r: Result<Vec<Export>, MalformedExport>)
        ensures
            r is Err <==> any_malformed(input@),
            r is Ok ==> r->Ok_0@ == self.collected() + exports_of(input@),
    {
        let mut out = self.exports;
        let ghost start = out@;
        let mut i: usize = 0;
        assert(input@.take(0) =~= Seq::<ModuleItem>::empty());
        assert(out@ =~= start + exports_of(input@.take(0)));
        while i < input.len()
            invariant
                0 <= i <= input.len(),
                start == self.collected(),
                out@ == start + exports_of(input@.take(i as int)),
                forall|j: int| 0 <= j < i ==> !#[trigger] is_malformed(input@[j]),
            decreases input.len() - i,
        {
            proof {
                assert(input@.take(i + 1).drop_last() =~= input@.take(i as int));
                assert(input@.take(i + 1).last() == input@[i as int]);
            }
            match &input[i] {
                ModuleItem::Named(n) => {
                    if n.declaration.is_some() && n.specifiers.len() > 0 {
                        assert(is_malformed(input@[i as int]));
                        return Err(MalformedExport);
                    }
                    push_named(&mut out, n);
                },
                ModuleItem::Default => {
                    out.push(Export::Default);
                },
                ModuleItem::All => {
                    out.push(Export::Wildcard);
                },
            }
            assert(out@ =~= start + exports_of(input@.take(i + 1)));
            i += 1;
        }
        assert(input@.take(input.len() as int) =~= input@);
        Ok(out)
    }
}

/// How an export is written in an export clause.
pub open spec fn export_text(e: Export) -> Seq<char> {
    match e {
        Export::Name(n) => n@,
        Export::Wildcard => "*"@,
        Export::Default => "default"@,
    }
}

/// How each export is written, in order.
pub open spec fn export_texts(es: Seq<Export>) -> Seq<Seq<char>> {
    es.map_values(|e: Export| export_text(e))
}

/// `export { <exports> } from "<module>"`, the exports joined by `, `.
pub open spec fn export_line_text(es: Seq<Export>, module: Seq<char>) -> Seq<char> {
    "export { "@ + join_with(export_texts(es), ", "@) + " } from "@ + quoted(module)
}

impl Export {
    /// The export as written in an export clause: its name, `*` or `default`.
    pub fn to_text(&self) -> (r: String)
        ensures
            r@ == export_text(*self),
    {
        match self {
            Export::Name(n) => n.clone(),
            Export::Wildcard => String::from_str("*"),
            Export::Default => String::from_str("default"),
        }
    }
}

/// A statement that re-exports `exports` from `module`.
pub fn export_line(exports: &Vec<Export>, module: &str) -> (r: String)
    ensures
        r@ == export_line_text(exports@, module@),
{
    let mut texts: Vec<String> = Vec::new();
    let mut i: usize = 0;
    while i < exports.len()
        invariant
            0 <= i <= exports.len(),
            views(texts@) == export_texts(exports@.take(i as int)),
        decreases exports.len() - i,
    {
        let ghost vb = views(texts@);
        let t = exports[i].to_text();
        texts.push(t);
        proof {
            assert(views(texts@) =~= vb.push(export_text(exports@[i as int])));
            assert(exports@.take(i + 1) =~= exports@.take(i as int).push(exports@[i as int]));
            assert(views(texts@) =~= export_texts(exports@.take(i + 1)));
        }
        i += 1;
    }
    assert(exports@.take(exports.len() as int) =~= exports@);
    let joined = join_code(&texts, ", ");
    let mut s = String::from_str("export { ");
    s.append(joined.as_str());
    s.append(" } from ");
    s.append("\"");
    s.append(module);
    s.append("\"");
    assert(s@ =~= export_line_text(exports@, module@));
    s
}

} // verus!
