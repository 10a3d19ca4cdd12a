//! Guard synthesis: the predicates a node must meet for a pattern to apply.

use vstd::prelude::*;
use vstd::string::*;
use crate::ast::{kind_token, OpVariant, Variant, VariantModel};
use crate::text::{all_digits_from, digits_from, is_digit, str_eq, substring, views};

verus! {

/// Guard on the kind of the operand at `pos`.
pub open spec fn kind_guard(k: OpVariant, pos: Seq<char>) -> Seq<char> {
    "node.is_op_"@ + kind_token(k) + "("@ + pos + ")"@
}

/// Guard on the kind of the output.
pub open spec fn out_guard(k: OpVariant) -> Seq<char> {
    "node.is_out_"@ + kind_token(k) + "()"@
}

/// Guard on the signedness of the node's type.
pub open spec fn signed_guard() -> Seq<char> {
    "node.get_ty().signed()"@
}

/// Guard on whether the node's type is a floating-point type.
pub open spec fn float_guard() -> Seq<char> {
    "node.get_ty().float()"@
}

/// Guard on whether the node's type is an integer type, whatever its
/// signedness (`intenger` is how the target representation spells it).
pub open spec fn integer_guard() -> Seq<char> {
    "node.get_ty().intenger()"@
}

/// Whether a type annotation is a vector shape (`<4xF32>`).
pub open spec fn is_vector_ty(ty: Seq<char>) -> bool {
    ty.len() > 0 && ty[0] == '<'
}

/// Index of the first `x` at or after `i`, or the length.
pub open spec fn find_x(ty: Seq<char>, i: int) -> int
    decreases ty.len() - i,
{
    if 0 <= i < ty.len() && ty[i] != 'x' {
        find_x(ty, i + 1)
    } else {
        i
    }
}

/// The element count of a vector shape.
pub open spec fn vector_count(ty: Seq<char>) -> Seq<char> {
    ty.subrange(1, find_x(ty, 1))
}

/// The element kind of a vector shape.
pub open spec fn vector_elem(ty: Seq<char>) -> Seq<char> {
    ty.subrange(find_x(ty, 1) + 1, ty.len() - 1)
}

/// A well-formed type annotation: a vector shape `<` count `x` kind `>` with a
/// decimal count and a non-empty kind, or a non-empty name.
pub open spec fn ty_ok(ty: Seq<char>) -> bool {
    if is_vector_ty(ty) {
        let x = find_x(ty, 1);
        &&& ty[ty.len() - 1] == '>'
        &&& 1 < x < ty.len() - 2
        &&& digits_from(ty.subrange(0, x), 1)
    } else {
        ty.len() > 0
    }
}

/// Guard on a vector shape: one predicate on element count and element kind.
pub open spec fn vector_guard(count: Seq<char>, elem: Seq<char>) -> Seq<char> {
    "node.is_ty(crate::IR::TypeMetadata::Vector(crate::IR::VecTy { size: "@ + count
        + ", ty: crate::IR::StdTypeMetadata::"@ + elem + "}))"@
}

/// Guard on an exact named type.
pub open spec fn exact_type_guard(name: Seq<char>) -> Seq<char> {
    "node.is_ty(crate::IR::TypeMetadata::"@ + name + ")"@
}

/// The guard a type annotation lowers to.
pub open spec fn type_guard(ty: Seq<char>) -> Seq<char> {
    if is_vector_ty(ty) {
        vector_guard(vector_count(ty), vector_elem(ty))
    } else if ty == "int"@ {
        integer_guard()
    } else if ty == "signed"@ {
        signed_guard()
    } else if ty == "unsigned"@ {
        "!"@ + signed_guard()
    } else if ty == "float"@ {
        float_guard()
    } else if ty == "no_float"@ {
        "!"@ + float_guard()
    } else {
        exact_type_guard(ty)
    }
}

/// The guard for an operand constraint: none when absent or a wildcard.
pub open spec fn operand_guard(k: Option<OpVariant>, pos: Seq<char>) -> Seq<Seq<char>> {
    match k {
        Some(k) => if k == OpVariant::Any {
            Seq::empty()
        } else {
            seq![kind_guard(k, pos)]
        },
        None => Seq::empty(),
    }
}

/// The guard for the output constraint: none when absent or a wildcard.
pub open spec fn output_guard(k: Option<OpVariant>) -> Seq<Seq<char>> {
    match k {
        Some(k) => if k == OpVariant::Any {
            Seq::empty()
        } else {
            seq![out_guard(k)]
        },
        None => Seq::empty(),
    }
}

/// The guard for the type constraint, if any.
pub open spec fn ty_guard(ty: Option<Seq<char>>) -> Seq<Seq<char>> {
    match ty {
        Some(t) => seq![type_guard(t)],
        None => Seq::empty(),
    }
}

/// Whether the variant's type annotation, if any, is well formed.
pub open spec fn variant_ty_ok(v: VariantModel) -> bool {
    match v.ty {
        Some(t) => ty_ok(t),
        None => true,
    }
}

/// The operand and output guards of a variant: left, right, third, output.
pub open spec fn plain_guards(v: VariantModel) -> Seq<Seq<char>> {
    operand_guard(v.ls, "0"@) + operand_guard(v.rs, "1"@) + operand_guard(v.op3, "2"@)
        + output_guard(v.out)
}

/// The ordered guards of a variant: left, right and third operand, output, type.
pub open spec fn guards(v: VariantModel) -> Seq<Seq<char>> {
    plain_guards(v) + ty_guard(v.ty)
}

/// Tests `ty_ok`.
pub fn check_ty(ty: &str) -> (r: bool)
    ensures
        r == ty_ok(ty@),
{
    let n = ty.unicode_len();
    if n == 0 {
        return false;
    }
    if ty.get_char(0) != '<' {
        return true;
    }
    let x = find_x_index(ty);
    if !(ty.get_char(n - 1) == '>' && 1 < x && n >= 3 && x < n - 2) {
        return false;
    }
    let head = substring(ty, 0, x);
    all_digits_from(head.as_str(), 1)
}

fn find_x_index(ty: &str) -> (r: usize)
    ensures
        r == find_x(ty@, 1),
        1 <= r <= ty@.len() || (ty@.len() == 0 && r == 1),
{
    let n = ty.unicode_len();
    let mut i: usize = 1;
    while i < n && ty.get_char(i) != 'x'
        invariant
            1 <= i,
            n == ty@.len(),
            i <= n || n == 0 && i == 1,
            find_x(ty@, i as int) == find_x(ty@, 1),
        decreases n - i,
    {
        i = i + 1;
    }
    i
}

fn operand_cond(k: Option<OpVariant>, pos: &str, out: &mut Vec<String>)
    ensures
        views(final(out)@) == views(old(out)@) + operand_guard(k, pos@),
{
    let ghost before = views(out@);
    match k {
        Some(k) => if k != OpVariant::Any {
            let mut s = String::from_str("node.is_op_");
            s.append(k.name());
            s.append("(");
            s.append(pos);
            s.append(")");
            out.push(s);
            assert(views(out@) =~= before + operand_guard(Some(k), pos@));
        } else {
            assert(views(out@) =~= before + operand_guard(Some(k), pos@));
        },
        None => {
            assert(views(out@) =~= before + operand_guard(k, pos@));
        },
    }
}

/// Builds the guard a well-formed type annotation lowers to.
pub fn type_cond(ty: &str) -> (r: String)
    requires
        ty_ok(ty@),
    ensures
        r@ == type_guard(ty@),
{
    if ty.get_char(0) == '<' {
        let n = ty.unicode_len();
        let x = find_x_index(ty);
        let mut s = String::from_str(
            "node.is_ty(crate::IR::TypeMetadata::Vector(crate::IR::VecTy { size: ",
        );
        s.append(ty.substring_char(1, x));
        s.append(", ty: crate::IR::StdTypeMetadata::");
        s.append(ty.substring_char(x + 1, n - 1));
        s.append("}))");
        s
    } else if str_eq(ty, "int") {
        String::from_str("node.get_ty().intenger()")
    } else if str_eq(ty, "signed") {
        String::from_str("node.get_ty().signed()")
    } else if str_eq(ty, "unsigned") {
        let mut s = String::from_str("!");
        s.append("node.get_ty().signed()");
        s
    } else if str_eq(ty, "float") {
        String::from_str("node.get_ty().float()")
    } else if str_eq(ty, "no_float") {
        let mut s = String::from_str("!");
        s.append("node.get_ty().float()");
        s
    } else {
        let mut s = String::from_str("node.is_ty(crate::IR::TypeMetadata::");
        s.append(ty);
        s.append(")");
        s
    }
}

/// The guards of a variant, in order.
pub fn conditions(v: &Variant) -> (r: Vec<String>)
    requires
        variant_ty_ok(v@),
    ensures
        views(r@) == guards(v@),
{
    let mut out: Vec<String> = Vec::new();
    operand_cond(v.ls, "0", &mut out);
    operand_cond(v.rs, "1", &mut out);
    operand_cond(v.op3, "2", &mut out);
    let ghost before = views(out@);
    match v.out {
        Some(k) => if k != OpVariant::Any {
            let mut s = String::from_str("node.is_out_");
            s.append(k.name());
            s.append("()");
            out.push(s);
        },
        None => {},
    }
    assert(views(out@) =~= before + output_guard(v.out));
    let ghost before2 = views(out@);
    match &v.ty {
        Some(t) => {
            let g = type_cond(t.as_str());
            out.push(g);
        },
        None => {},
    }
    assert(views(out@) =~= before2 + ty_guard(v@.ty));
    assert(views(out@) =~= guards(v@));
    out
}

} // verus!

verus! {

/// A variant has at most five guards.
pub proof fn lemma_guard_count(v: VariantModel)
    ensures
        guards(v).len() <= 5,
{
    assert(operand_guard(v.ls, "0"@).len() <= 1);
    assert(operand_guard(v.rs, "1"@).len() <= 1);
    assert(operand_guard(v.op3, "2"@).len() <= 1);
    assert(output_guard(v.out).len() <= 1);
    assert(ty_guard(v.ty).len() <= 1);
}

} // verus!

verus! {

/// Qualifier lowering: `unsigned` and `no_float` lower to the negation of the
/// signedness and float guards, `signed` and `float` to those guards, and `int`
/// to the integer-category guard, which is neither signedness guard. The type
/// guard is the last guard of the variant.
pub proof fn lemma_qualifier_lowering(v: VariantModel)
    ensures
        v.ty == Some("unsigned"@) ==> guards(v).len() > 0 && guards(v).last() == "!"@
            + signed_guard(),
        v.ty == Some("signed"@) ==> guards(v).len() > 0 && guards(v).last() == signed_guard(),
        v.ty == Some("no_float"@) ==> guards(v).len() > 0 && guards(v).last() == "!"@
            + float_guard(),
        v.ty == Some("float"@) ==> guards(v).len() > 0 && guards(v).last() == float_guard(),
        v.ty == Some("int"@) ==> guards(v).len() > 0 && guards(v).last() == integer_guard(),
        integer_guard() != signed_guard(),
        integer_guard() != "!"@ + signed_guard(),
{
    reveal_strlit("unsigned");
    reveal_strlit("signed");
    reveal_strlit("no_float");
    reveal_strlit("float");
    reveal_strlit("int");
    reveal_strlit("node.get_ty().intenger()");
    reveal_strlit("node.get_ty().signed()");
    reveal_strlit("!");
    assert(integer_guard().len() != signed_guard().len());
    assert(integer_guard()[0] != ("!"@ + signed_guard())[0]);
    let rest = operand_guard(v.ls, "0"@) + operand_guard(v.rs, "1"@) + operand_guard(v.op3, "2"@)
        + output_guard(v.out);
    assert(guards(v) == rest + ty_guard(v.ty));
    if v.ty is Some {
        assert(guards(v).last() == type_guard(v.ty->0));
    }
}

proof fn lemma_find_x_skip(ty: Seq<char>, i: int, j: int)
    requires
        0 <= i <= j <= ty.len(),
        forall|k: int| i <= k < j ==> ty[k] != 'x',
    ensures
        find_x(ty, i) == find_x(ty, j),
    decreases j - i,
{
    if i < j {
        lemma_find_x_skip(ty, i + 1, j);
    }
}

/// Vector lowering: an annotation `<` count `x` kind `>`, with a decimal count
/// and a non-empty kind, is well formed and lowers to a single guard on the
/// element count and element kind together.
pub proof fn lemma_vector_lowering(count: Seq<char>, elem: Seq<char>)
    requires
        count.len() > 0,
        forall|k: int| 0 <= k < count.len() ==> is_digit(#[trigger] count[k]),
        elem.len() > 0,
    ensures
        ({
            let ty = seq!['<'] + count + seq!['x'] + elem + seq!['>'];
            &&& ty_ok(ty)
            &&& ty_guard(Some(ty)) == seq![vector_guard(count, elem)]
        }),
{
    let ty = seq!['<'] + count + seq!['x'] + elem + seq!['>'];
    let c = count.len() as int;
    assert forall|k: int| 1 <= k < 1 + c implies ty[k] != 'x' by {
        assert(ty[k] == count[k - 1]);
        assert(is_digit(count[k - 1]));
    }
    lemma_find_x_skip(ty, 1, 1 + c);
    assert(ty[1 + c] == 'x');
    assert(find_x(ty, 1) == 1 + c);
    assert(ty.subrange(1, 1 + c) =~= count);
    assert(ty.subrange(2 + c, ty.len() - 1) =~= elem);
    let head = ty.subrange(0, 1 + c);
    assert forall|k: int| 1 <= k < head.len() implies is_digit(#[trigger] head[k]) by {
        assert(head[k] == count[k - 1]);
    }
    assert(digits_from(head, 1));
    assert(is_vector_ty(ty));
}

} // verus!
