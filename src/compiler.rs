use vstd::prelude::*;

use crate::model::{LiteralValue, Member, PrimitiveKind, TypeExpression, Unsupported};

verus! {

/// `s` between parentheses.
pub open spec fn paren(s: Seq<char>) -> Seq<char> {
    "("@ + s + ")"@
}

/// `s` between double quotes, verbatim.
pub open spec fn quoted(s: Seq<char>) -> Seq<char> {
    "\""@ + s + "\""@
}

/// The name that the outermost array or index-signature check binds.
pub open spec fn first_binder() -> Seq<char> {
    "v"@
}

/// The name bound one nesting level below `b`: longer than `b`, so never the
/// same as an enclosing binder.
pub open spec fn next_binder(b: Seq<char>) -> Seq<char> {
    b + "v"@
}

/// The operand of `typeof` that a primitive kind is tested against.
pub open spec fn primitive_name(k: PrimitiveKind) -> Seq<char> {
    match k {
        PrimitiveKind::Number => "number"@,
        PrimitiveKind::String => "string"@,
        PrimitiveKind::Boolean => "boolean"@,
        PrimitiveKind::Object => "object"@,
    }
}

/// `typeof p === "<name>"`.
pub open spec fn typeof_text(p: Seq<char>, name: Seq<char>) -> Seq<char> {
    "typeof "@ + p + " === "@ + quoted(name)
}

/// The check that `p` holds the literal value `l`.
pub open spec fn literal_text(l: LiteralValue, p: Seq<char>) -> Seq<char> {
    match l {
        LiteralValue::Bool(true) => p + " === true"@,
        LiteralValue::Bool(false) => p + " === false"@,
        LiteralValue::Str(s) => p + " === "@ + quoted(s@),
    }
}

/// Every part parenthesized, in order, joined by `sep`.
pub open spec fn join_parens(parts: Seq<Seq<char>>, sep: Seq<char>) -> Seq<char>
    decreases parts.len(),
{
    if parts.len() == 0 {
        seq![]
    } else if parts.len() == 1 {
        paren(parts[0])
    } else {
        join_parens(parts.drop_last(), sep) + sep + paren(parts.last())
    }
}

/// The parts, in order, joined by `sep`.
pub open spec fn join_with(parts: Seq<Seq<char>>, sep: Seq<char>) -> Seq<char>
    decreases parts.len(),
{
    if parts.len() == 0 {
        seq![]
    } else if parts.len() == 1 {
        parts[0]
    } else {
        join_with(parts.drop_last(), sep) + sep + parts.last()
    }
}

/// The disjunction of the member checks of a union, in member order; an
/// empty union is never satisfied. `===`, `&&` and calls bind tighter than
/// `||`, so no member needs parentheses.
pub open spec fn union_text(parts: Seq<Seq<char>>) -> Seq<char> {
    if parts.len() == 0 {
        "false"@
    } else {
        join_with(parts, " || "@)
    }
}

/// The check that `p` is a truthy value of type `object`, followed by each
/// member check, parenthesized and joined by logical and.
pub open spec fn object_text(p: Seq<char>, parts: Seq<Seq<char>>) -> Seq<char> {
    if parts.len() == 0 {
        p + " && "@ + typeof_text(p, "object"@)
    } else {
        p + " && "@ + typeof_text(p, "object"@) + " && "@ + join_parens(parts, " && "@)
    }
}

/// The check that `p` is an array whose every element, bound to `b`, passes
/// `element`.
pub open spec fn array_text(p: Seq<char>, b: Seq<char>, element: Seq<char>) -> Seq<char> {
    "(Array.isArray("@ + p + ") && "@ + p + ".every(("@ + b + ") => "@ + element + "))"@
}

/// The check that every own enumerable value of `p`, bound to `b`, passes
/// `value`.
pub open spec fn entries_text(p: Seq<char>, b: Seq<char>, value: Seq<char>) -> Seq<char> {
    "Object.values("@ + p + ").every(("@ + b + ") => "@ + value + ")"@
}

/// A call of the guard of the named type on `p`.
pub open spec fn reference_text(name: Seq<char>, p: Seq<char>) -> Seq<char> {
    "is"@ + name + paren(p)
}

/// The check that the value at access path `p` conforms to `t`, where `b` is
/// the name the next nested quantifier binds; or the first construct, in
/// source order, that has no check.
pub open spec fn check_text(t: TypeExpression, p: Seq<char>, b: Seq<char>) -> Result<
    Seq<char>,
    Unsupported,
>
    decreases t,
{
    match t {
        TypeExpression::Primitive(k) => Ok(typeof_text(p, primitive_name(k))),
        TypeExpression::Literal(l) => Ok(literal_text(l, p)),
        TypeExpression::Array(e) => match check_text(*e, b, next_binder(b)) {
            Ok(c) => Ok(array_text(p, b, c)),
            Err(u) => Err(u),
        },
        TypeExpression::Union(ms) => match checks_text(ms@, p, b) {
            Ok(cs) => Ok(union_text(cs)),
            Err(u) => Err(u),
        },
        TypeExpression::ObjectShape(ms) => match members_text(ms@, p, b) {
            Ok(cs) => Ok(object_text(p, cs)),
            Err(u) => Err(u),
        },
        TypeExpression::Reference(n) => Ok(reference_text(n@, p)),
        TypeExpression::Unsupported(u) => Err(u),
    }
}

/// The checks of each type in `ts` on the same path, in order.
pub open spec fn checks_text(ts: Seq<TypeExpression>, p: Seq<char>, b: Seq<char>) -> Result<
    Seq<Seq<char>>,
    Unsupported,
>
    decreases ts,
{
    if ts.len() == 0 {
        Ok(seq![])
    } else {
        match checks_text(ts.drop_last(), p, b) {
            Err(u) => Err(u),
            Ok(cs) => match check_text(ts.last(), p, b) {
                Err(u) => Err(u),
                Ok(c) => Ok(cs.push(c)),
            },
        }
    }
}

/// The check of one member of an object shape at path `p`.
pub open spec fn member_text(m: Member, p: Seq<char>, b: Seq<char>) -> Result<
    Seq<char>,
    Unsupported,
>
    decreases m,
{
    match m {
        Member::AnyProperty(k) => Ok(quoted(k@) + " in "@ + p),
        Member::Property(k, t) => check_text(t, p + "."@ + k@, b),
        Member::IndexSignature(_, t) => match check_text(t, b, next_binder(b)) {
            Ok(c) => Ok(entries_text(p, b, c)),
            Err(u) => Err(u),
        },
        Member::Unsupported(u) => Err(u),
    }
}

/// The checks of each member in `ms` at path `p`, in order.
pub open spec fn members_text(ms: Seq<Member>, p: Seq<char>, b: Seq<char>) -> Result<
    Seq<Seq<char>>,
    Unsupported,
>
    decreases ms,
{
    if ms.len() == 0 {
        Ok(seq![])
    } else {
        match members_text(ms.drop_last(), p, b) {
            Err(u) => Err(u),
            Ok(cs) => match member_text(ms.last(), p, b) {
                Err(u) => Err(u),
                Ok(c) => Ok(cs.push(c)),
            },
        }
    }
}

/// What compiling `t` against the access path `p` yields.
pub open spec fn check_code(t: TypeExpression, p: Seq<char>) -> Result<Seq<char>, Unsupported> {
    check_text(t, p, first_binder())
}

/// The text of each string in `v`.
pub open spec fn views(v: Seq<String>) -> Seq<Seq<char>> {
    v.map_values(|s: String| s@)
}

/// A compiled check as text, or the construct that stopped it.
pub open spec fn text_view(r: Result<String, Unsupported>) -> Result<Seq<char>, Unsupported> {
    match r {
        Ok(s) => Ok(s@),
        Err(u) => Err(u),
    }
}

/// A list of compiled checks as text, or the construct that stopped them.
pub open spec fn texts_view(r: Result<Vec<String>, Unsupported>) -> Result<
    Seq<Seq<char>>,
    Unsupported,
> {
    match r {
        Ok(v) => Ok(views(v@)),
        Err(u) => Err(u),
    }
}

fn paren_code(s: &mut String, x: &str)
    ensures
        final(s)@ == old(s)@ + paren(x@),
{
    let ghost s0 = s@;
    s.append("(");
    s.append(x);
    s.append(")");
    assert(s@ =~= s0 + paren(x@));
}

fn quoted_code(s: &mut String, x: &str)
    ensures
        final(s)@ == old(s)@ + quoted(x@),
{
    let ghost s0 = s@;
    s.append("\"");
    s.append(x);
    s.append("\"");
    assert(s@ =~= s0 + quoted(x@));
}

fn typeof_code(p: &str, name: &str) -> (r: String)
    ensures
        r@ == typeof_text(p@, name@),
{
    let mut s = String::from_str("typeof ");
    s.append(p);
    s.append(" === ");
    quoted_code(&mut s, name);
    s
}

fn literal_code(l: &LiteralValue, p: &str) -> (r: String)
    ensures
        r@ == literal_text(*l, p@),
{
    let mut s = String::from_str(p);
    match l {
        LiteralValue::Bool(true) => s.append(" === true"),
        LiteralValue::Bool(false) => s.append(" === false"),
        LiteralValue::Str(v) => {
            s.append(" === ");
            quoted_code(&mut s, v.as_str());
        },
    }
    s
}

fn join_parens_code(parts: &Vec<String>, sep: &str) -> (r: String)
    ensures
        r@ == join_parens(views(parts@), sep@),
{
    let ghost vs = views(parts@);
    let mut s = String::new();
    let mut i: usize = 0;
    while i < parts.len()
        invariant
            0 <= i <= parts.len(),
            vs == views(parts@),
            s@ == join_parens(vs.take(i as int), sep@),
        decreases parts.len() - i,
    {
        let ghost s0 = s@;
        if i > 0 {
            s.append(sep);
        }
        paren_code(&mut s, parts[i].as_str());
        proof {
            assert(vs.take(i + 1).drop_last() =~= vs.take(i as int));
            assert(vs.take(i + 1).last() == vs[i as int]);
            if i == 0 {
                assert(s@ =~= paren(vs[0]));
            } else {
                assert(s@ =~= s0 + sep@ + paren(vs[i as int]));
            }
        }
        i += 1;
    }
    assert(vs.take(parts.len() as int) =~= vs);
    s
}

/// The parts, in order, joined by `sep`.
pub fn join_code(parts: &Vec<String>, sep: &str) -> (r: String)
    ensures
        r@ == join_with(views(parts@), sep@),
{
    let ghost vs = views(parts@);
    let mut s = String::new();
    let mut i: usize = 0;
    while i < parts.len()
        invariant
            0 <= i <= parts.len(),
            vs == views(parts@),
            s@ == join_with(vs.take(i as int), sep@),
        decreases parts.len() - i,
    {
        let ghost s0 = s@;
        if i > 0 {
            s.append(sep);
        }
        s.append(parts[i].as_str());
        proof {
            assert(vs.take(i + 1).drop_last() =~= vs.take(i as int));
            assert(vs.take(i + 1).last() == vs[i as int]);
            if i == 0 {
                assert(s@ =~= vs[0]);
            }
        }
        i += 1;
    }
    assert(vs.take(parts.len() as int) =~= vs);
    s
}

fn union_code(parts: &Vec<String>) -> (r: String)
    ensures
        r@ == union_text(views(parts@)),
{
    if parts.len() == 0 {
        String::from_str("false")
    } else {
        join_code(parts, " || ")
    }
}

fn object_code(p: &str, parts: &Vec<String>) -> (r: String)
    ensures
        r@ == object_text(p@, views(parts@)),
{
    let mut s = String::from_str(p);
    s.append(" && ");
    let t = typeof_code(p, "object");
    s.append(t.as_str());
    if parts.len() > 0 {
        s.append(" && ");
        let j = join_parens_code(parts, " && ");
        s.append(j.as_str());
    }
    s
}

fn array_code(p: &str, b: &str, element: &str) -> (r: String)
    ensures
        r@ == array_text(p@, b@, element@),
{
    let mut s = String::from_str("(Array.isArray(");
    s.append(p);
    s.append(") && ");
    s.append(p);
    s.append(".every((");
    s.append(b);
    s.append(") => ");
    s.append(element);
    s.append("))");
    s
}

fn entries_code(p: &str, b: &str, value: &str) -> (r: String)
    ensures
        r@ == entries_text(p@, b@, value@),
{
    let mut s = String::from_str("Object.values(");
    s.append(p);
    s.append(").every((");
    s.append(b);
    s.append(") => ");
    s.append(value);
    s.append(")");
    s
}

fn reference_code(name: &str, p: &str) -> (r: String)
    ensures
        r@ == reference_text(name@, p@),
{
    let mut s = String::from_str("is");
    s.append(name);
    paren_code(&mut s, p);
    s
}

fn next_binder_code(b: &str) -> (r: String)
    ensures
        r@ == next_binder(b@),
{
    let mut s = String::from_str(b);
    s.append("v");
    s
}

proof fn lemma_checks_err(ts: Seq<TypeExpression>, p: Seq<char>, b: Seq<char>, i: int)
    requires
        0 < i <= ts.len(),
        checks_text(ts.take(i), p, b) is Err,
    ensures
        checks_text(ts, p, b) == checks_text(ts.take(i), p, b),
    decreases ts.len() - i,
{
    if i < ts.len() {
        assert(ts.take(i + 1).drop_last() =~= ts.take(i));
        lemma_checks_err(ts, p, b, i + 1);
    } else {
        assert(ts.take(i) =~= ts);
    }
}

proof fn lemma_members_err(ms: Seq<Member>, p: Seq<char>, b: Seq<char>, i: int)
    requires
        0 < i <= ms.len(),
        members_text(ms.take(i), p, b) is Err,
    ensures
        members_text(ms, p, b) == members_text(ms.take(i), p, b),
    decreases ms.len() - i,
{
    if i < ms.len() {
        assert(ms.take(i + 1).drop_last() =~= ms.take(i));
        lemma_members_err(ms, p, b, i + 1);
    } else {
        assert(ms.take(i) =~= ms);
    }
}

fn compile_at(t: &TypeExpression, p: &str, b: &str) -> (r: Result<String, Unsupported>)
    ensures
        text_view(r) == check_text(*t, p@, b@),
    decreases t,
{
    match t {
        TypeExpression::Primitive(k) => {
            let name = match k {
                PrimitiveKind::Number => "number",
                PrimitiveKind::String => "string",
                PrimitiveKind::Boolean => "boolean",
                PrimitiveKind::Object => "object",
            };
            Ok(typeof_code(p, name))
        },
        TypeExpression::Literal(l) => Ok(literal_code(l, p)),
        TypeExpression::Array(e) => {
            let nb = next_binder_code(b);
            match compile_at(e, b, nb.as_str()) {
                Ok(c) => Ok(array_code(p, b, c.as_str())),
                Err(u) => Err(u),
            }
        },
        TypeExpression::Union(ms) => match compile_all(ms, p, b) {
            Ok(cs) => Ok(union_code(&cs)),
            Err(u) => Err(u),
        },
        TypeExpression::ObjectShape(ms) => match compile_members(ms, p, b) {
            Ok(cs) => Ok(object_code(p, &cs)),
            Err(u) => Err(u),
        },
        TypeExpression::Reference(n) => Ok(reference_code(n.as_str(), p)),
        TypeExpression::Unsupported(u) => Err(*u),
    }
}

fn compile_all(ts: &Vec<TypeExpression>, p: &str, b: &str) -> (r: Result<Vec<String>, Unsupported>)
    ensures
        texts_view(r) == checks_text(ts@, p@, b@),
    decreases ts,
{
    let mut out: Vec<String> = Vec::new();
    let mut i: usize = 0;
    assert(ts@.take(0) =~= Seq::<TypeExpression>::empty());
    assert(views(out@) =~= Seq::<Seq<char>>::empty());
    while i < ts.len()
        invariant
            0 <= i <= ts.len(),
            checks_text(ts@.take(i as int), p@, b@) == Ok::<Seq<Seq<char>>, Unsupported>(
                views(out@),
            ),
        decreases ts.len() - i,
    {
        proof {
            assert(ts@.take(i + 1).drop_last() =~= ts@.take(i as int));
            assert(ts@.take(i + 1).last() == ts@[i as int]);
            assert(decreases_to!(ts => ts[i as int]));
        }
        let ghost before = views(out@);
        match compile_at(&ts[i], p, b) {
            Ok(c) => {
                out.push(c);
                assert(views(out@) =~= before.push(c@));
            },
            Err(u) => {
                proof {
                    lemma_checks_err(ts@, p@, b@, i + 1);
                }
                return Err(u);
            },
        }
        i += 1;
    }
    assert(ts@.take(ts.len() as int) =~= ts@);
    Ok(out)
}

fn compile_member(m: &Member, p: &str, b: &str) -> (r: Result<String, Unsupported>)
    ensures
        text_view(r) == member_text(*m, p@, b@),
    decreases m,
{
    match m {
        Member::AnyProperty(k) => {
            let mut s = String::new();
            quoted_code(&mut s, k.as_str());
            s.append(" in ");
            s.append(p);
            assert(s@ =~= quoted(k@) + " in "@ + p@);
            Ok(s)
        },
        Member::Property(k, t) => {
            let mut path = String::from_str(p);
            path.append(".");
            path.append(k.as_str());
            compile_at(t, path.as_str(), b)
        },
        Member::IndexSignature(_, t) => {
            let nb = next_binder_code(b);
            match compile_at(t, b, nb.as_str()) {
                Ok(c) => Ok(entries_code(p, b, c.as_str())),
                Err(u) => Err(u),
            }
        },
        Member::Unsupported(u) => Err(*u),
    }
}

fn compile_members(ms: &Vec<Member>, p: &str, b: &str) -> (r: Result<Vec<String>, Unsupported>)
    ensures
        texts_view(r) == members_text(ms@, p@, b@),
    decreases ms,
{
    let mut out: Vec<String> = Vec::new();
    let mut i: usize = 0;
    assert(ms@.take(0) =~= Seq::<Member>::empty());
    assert(views(out@) =~= Seq::<Seq<char>>::empty());
    while i < ms.len()
        invariant
            0 <= i <= ms.len(),
            members_text(ms@.take(i as int), p@, b@) == Ok::<Seq<Seq<char>>, Unsupported>(
                views(out@),
            ),
        decreases ms.len() - i,
    {
        proof {
            assert(ms@.take(i + 1).drop_last() =~= ms@.take(i as int));
            assert(ms@.take(i + 1).last() == ms@[i as int]);
            assert(decreases_to!(ms => ms[i as int]));
        }
        let ghost before = views(out@);
        match compile_member(&ms[i], p, b) {
            Ok(c) => {
                out.push(c);
                assert(views(out@) =~= before.push(c@));
            },
            Err(u) => {
                proof {
                    lemma_members_err(ms@, p@, b@, i + 1);
                }
                return Err(u);
            },
        }
        i += 1;
    }
    assert(ms@.take(ms.len() as int) =~= ms@);
    Ok(out)
}

/// Compiles `t` into a boolean expression that holds exactly when the value at
/// `access_path` conforms to `t`; fails with the first construct, in source
/// order, that has no check.
pub fn compile(t: &TypeExpression, access_path: &str) -> (r: Result<String, Unsupported>)
    ensures
        text_view(r) == check_code(*t, access_path@),
{
    compile_at(t, access_path, "v")
}

} // verus!
