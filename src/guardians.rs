use vstd::prelude::*;

use crate::compiler::{check_code, compile};
use crate::model::{
    any_malformed, is_malformed, Declaration, ExportedDecl, MalformedExport, ModuleItem,
    Unsupported,
};

verus! {

/// A guard for one exported type: the type's name and the check that the
/// guard returns.
#[derive(Debug)]
pub struct Guardian {
    typename: String,
    check_code: String,
}

/// A type declaration that got no guard, and the construct that stopped it.
#[derive(Debug)]
pub struct Skipped {
    pub typename: String,
    pub construct: Unsupported,
}

impl View for Guardian {
    type V = (Seq<char>, Seq<char>);

    closed spec fn view(&self) -> (Seq<char>, Seq<char>) {
        (self.typename@, self.check_code@)
    }
}

impl View for Skipped {
    type V = (Seq<char>, Unsupported);

    open spec fn view(&self) -> (Seq<char>, Unsupported) {
        (self.typename@, self.construct)
    }
}

/// The text of a guard function for `name` that returns `check`.
pub open spec fn guard_text(name: Seq<char>, check: Seq<char>) -> Seq<char> {
    "function is"@ + name + "(it: any): it is "@ + name + " {\n\treturn "@ + check + ";\n}\n"@
}

/// The guard functions, in order, separated by blank lines.
pub open spec fn emit_text(gs: Seq<(Seq<char>, Seq<char>)>) -> Seq<char>
    decreases gs.len(),
{
    if gs.len() == 0 {
        seq![]
    } else if gs.len() == 1 {
        guard_text(gs[0].0, gs[0].1)
    } else {
        emit_text(gs.drop_last()) + "\n"@ + guard_text(gs.last().0, gs.last().1)
    }
}

/// The check of a guard for `d`: its shape compiled against the parameter `it`.
pub open spec fn guard_check(d: Declaration) -> Result<Seq<char>, Unsupported> {
    check_code(d.shape, "it"@)
}

/// The type declaration that an export statement carries, if any.
pub open spec fn declaration_of(item: ModuleItem) -> Option<Declaration> {
    match item {
        ModuleItem::Named(n) => match n.declaration {
            Some(ExportedDecl::TypeAlias(d)) => Some(d),
            Some(ExportedDecl::Interface(d)) => Some(d),
            _ => None,
        },
        _ => None,
    }
}

/// The guards of the type declarations among `items` that compile, in
/// source order.
pub open spec fn guards_of(items: Seq<ModuleItem>) -> Seq<(Seq<char>, Seq<char>)>
    decreases items.len(),
{
    if items.len() == 0 {
        seq![]
    } else {
        guards_of(items.drop_last()) + match declaration_of(items.last()) {
            Some(d) => match guard_check(d) {
                Ok(c) => seq![(d.name@, c)],
                Err(_) => seq![],
            },
            None => seq![],
        }
    }
}

/// The type declarations among `items` that do not compile, each with the
/// construct that stopped it, in source order.
pub open spec fn skipped_of(items: Seq<ModuleItem>) -> Seq<(Seq<char>, Unsupported)>
    decreases items.len(),
{
    if items.len() == 0 {
        seq![]
    } else {
        skipped_of(items.drop_last()) + match declaration_of(items.last()) {
            Some(d) => match guard_check(d) {
                Ok(_) => seq![],
                Err(u) => seq![(d.name@, u)],
            },
            None => seq![],
        }
    }
}

/// The views of a list of guardians.
pub open spec fn guardian_views(gs: Seq<Guardian>) -> Seq<(Seq<char>, Seq<char>)> {
    gs.map_values(|g: Guardian| g@)
}

/// The views of a list of skipped declarations.
pub open spec fn skipped_views(ss: Seq<Skipped>) -> Seq<(Seq<char>, Unsupported)> {
    ss.map_values(|s: Skipped| s@)
}

impl Guardian {
    /// A guard for `typename` that returns `check_code`.
    pub fn new(typename: &str, check_code: String) -> (r: Guardian)
        ensures
            r@ == (typename@, check_code@),
    {
        Guardian { typename: String::from_str(typename), check_code }
    }

    /// The name of the guarded type.
    pub fn typename(&self) -> (r: &str)
        ensures
            r@ == self@.0,
    {
        self.typename.as_str()
    }

    /// The check that the guard returns.
    pub fn check_code(&self) -> (r: &str)
        ensures
            r@ == self@.1,
    {
        self.check_code.as_str()
    }

    /// The guard as a function declaration:
    /// `function is<T>(it: any): it is <T> { return <check>; }`.
    pub fn to_text(&self) -> (r: String)
        ensures
            r@ == guard_text(self@.0, self@.1),
    {
        let mut s = String::from_str("function is");
        s.append(self.typename.as_str());
        s.append("(it: any): it is ");
        s.append(self.typename.as_str());
        s.append(" {\n\treturn ");
        s.append(self.check_code.as_str());
        s.append(";\n}\n");
        s
    }
}

/// Whether `r` is what guarding `d` gives: a guard named after `d` whose
/// check is `d`'s shape compiled against `it`, or the construct that stopped
/// it.
pub open spec fn is_guard_of(d: Declaration, r: Result<Guardian, Unsupported>) -> bool {
    match guard_check(d) {
        Ok(c) => r is Ok && r->Ok_0@ == (d.name@, c),
        Err(u) => r == Err::<Guardian, Unsupported>(u),
    }
}

/// The guard of a type declaration, or the first construct of its shape, in
/// source order, that has no check.
pub fn guard_declaration(d: &Declaration) -> (r: Result<Guardian, Unsupported>)
    ensures
        is_guard_of(*d, r),
{
    match compile(&d.shape, "it") {
        Ok(c) => Ok(Guardian::new(d.name.as_str(), c)),
        Err(u) => Err(u),
    }
}

/// Guarding the same declaration twice gives the same outcome: the same
/// name and byte for byte the same check, or the same construct.
pub proof fn guard_is_idempotent(
    d: Declaration,
    first: Result<Guardian, Unsupported>,
    second: Result<Guardian, Unsupported>,
)
    requires
        is_guard_of(d, first),
        is_guard_of(d, second),
    ensures
        first is Ok <==> second is Ok,
        first is Ok ==> first->Ok_0@ == second->Ok_0@,
        first is Err ==> first == second,
{
}

/// The guard functions, in order, separated by blank lines.
pub fn emit(guardians: &Vec<Guardian>) -> (r: String)
    ensures
        r@ == emit_text(guardian_views(guardians@)),
{
    let ghost gs = guardian_views(guardians@);
    let mut s = String::new();
    let mut i: usize = 0;
    while i < guardians.len()
        invariant
            0 <= i <= guardians.len(),
            gs == guardian_views(guardians@),
            s@ == emit_text(gs.take(i as int)),
        decreases guardians.len() - i,
    {
        let ghost s0 = s@;
        if i > 0 {
            s.append("\n");
        }
        let t = guardians[i].to_text();
        s.append(t.as_str());
        proof {
            assert(gs.take(i + 1).drop_last() =~= gs.take(i as int));
            assert(gs.take(i + 1).last() == gs[i as int]);
            if i == 0 {
                assert(s@ =~= guard_text(gs[0].0, gs[0].1));
            }
        }
        i += 1;
    }
    assert(gs.take(guardians.len() as int) =~= gs);
    s
}

/// Collects a guard for each exported type declaration of a module.
pub struct Guardians {
    guardians: Vec<Guardian>,
    skipped: Vec<Skipped>,
}

impl Guardians {
    /// The guards collected so far.
    pub closed spec fn collected(&self) -> Seq<(Seq<char>, Seq<char>)> {
        guardian_views(self.guardians@)
    }

    /// The declarations skipped so far.
    pub closed spec fn skipped(&self) -> Seq<(Seq<char>, Unsupported)> {
        skipped_views(self.skipped@)
    }

    /// A collector that has seen no declaration.
    pub fn new() -> (r: Guardians)
        ensures
            r.collected() == Seq::<(Seq<char>, Seq<char>)>::empty(),
            r.skipped() == Seq::<(Seq<char>, Unsupported)>::empty(),
    {
        let r = Guardians { guardians: Vec::new(), skipped: Vec::new() };
        assert(r.collected() =~= Seq::<(Seq<char>, Seq<char>)>::empty());
        assert(r.skipped() =~= Seq::<(Seq<char>, Unsupported)>::empty());
        r
    }

    /// Adds a guard for each type alias and interface that `input` exports,
    /// in source order; a declaration whose shape holds a construct with no
    /// check is skipped and reported with that construct, and other exports
    /// are passed over. Fails when a named export both declares a binding and
    /// lists specifiers. Returns the guards and the skipped declarations.
    pub fn parse(self, input: &Vec<ModuleItem>) -> (r: Result<
        (Vec<Guardian>, Vec<Skipped>),
        MalformedExport,
    >)
        ensures
            r is Err <==> any_malformed(input@),
            r is Ok ==> guardian_views(r->Ok_0.0@) == self.collected() + guards_of(input@),
            r is Ok ==> skipped_views(r->Ok_0.1@) == self.skipped() + skipped_of(input@),
    {
        let Guardians { mut guardians, mut skipped } = self;
        let ghost g0 = guardian_views(guardians@);
        let ghost s0 = skipped_views(skipped@);
        let mut i: usize = 0;
        assert(input@.take(0) =~= Seq::<ModuleItem>::empty());
        assert(guardian_views(guardians@) =~= g0 + guards_of(input@.take(0)));
        assert(skipped_views(skipped@) =~= s0 + skipped_of(input@.take(0)));
        while i < input.len()
            invariant
                0 <= i <= input.len(),
                g0 == self.collected(),
                s0 == self.skipped(),
                guardian_views(guardians@) == g0 + guards_of(input@.take(i as int)),
                skipped_views(skipped@) == s0 + skipped_of(input@.take(i as int)),
                forall|j: int| 0 <= j < i ==> !#[trigger] is_malformed(input@[j]),
            decreases input.len() - i,
        {
            let ghost gb = guardian_views(guardians@);
            let ghost sb = skipped_views(skipped@);
            proof {
                assert(input@.take(i + 1).drop_last() =~= input@.take(i as int));
                assert(input@.take(i + 1).last() == input@[i as int]);
            }
            if let ModuleItem::Named(n) = &input[i] {
                if n.declaration.is_some() && n.specifiers.len() > 0 {
                    assert(is_malformed(input@[i as int]));
                    return Err(MalformedExport);
                }
                let d = match &n.declaration {
                    Some(ExportedDecl::TypeAlias(d)) => Some(d),
                    Some(ExportedDecl::Interface(d)) => Some(d),
                    _ => None,
                };
                if let Some(d) = d {
                    match guard_declaration(d) {
                        Ok(g) => {
                            guardians.push(g);
                            assert(guardian_views(guardians@) =~= gb + seq![
                                (d.name@, guard_check(*d)->Ok_0),
                            ]);
                        },
                        Err(u) => {
                            skipped.push(Skipped { typename: d.name.clone(), construct: u });
                            assert(skipped_views(skipped@) =~= sb + seq![(d.name@, u)]);
                        },
                    }
                }
            }
            assert(guardian_views(guardians@) =~= g0 + guards_of(input@.take(i + 1)));
            assert(skipped_views(skipped@) =~= s0 + skipped_of(input@.take(i + 1)));
            i += 1;
        }
        assert(input@.take(input.len() as int) =~= input@);
        Ok((guardians, skipped))
    }
}

} // verus!
