//! Emission: per-pattern guard nests with operand materialisation and expanded
//! templates, grouped into one function per mnemonic (without `(_)`), with a dispatcher and the
//! temporary and clobber tables.

use vstd::prelude::*;
use vstd::string::*;
use codegen::{Function, Scope};
use crate::ast::{
    models, AsmLine, AstTarget, LineModel, OpVariant, Pattern, PatternModel, TempMap, VariantModel,
};
use crate::cond::{conditions, guards, is_vector_ty, plain_guards, ty_guard, type_guard, variant_ty_ok};
use crate::scope::{
    add_arg, add_line, fn_is_plain, fn_parts, new_function, scope_is_plain, new_scope, push_function, render, scope_fns,
    scope_text, set_ret, set_vis,
};
use crate::template::{construct_assembly_build, is_temp_name, template_ok, template_text};
use crate::text::{make_tabs, prefixed, replace_all, replace_str, str_eq, tabs, views};

verus! {

/// Whether a character may appear in an identifier.
pub open spec fn is_ident_char(c: char) -> bool {
    ('a' <= c && c <= 'z') || ('A' <= c && c <= 'Z') || ('0' <= c && c <= '9') || c == '_'
}

/// Whether a character may appear in a mnemonic: an identifier character, or
/// a parenthesis of a variant pattern such as `Call(_)`.
pub open spec fn is_mnemonic_char(c: char) -> bool {
    is_ident_char(c) || c == '(' || c == ')'
}

/// A mnemonic starts with an identifier character and names an opcode,
/// possibly as a variant pattern (`Call(_)`).
pub open spec fn mnemonic_ok(m: Seq<char>) -> bool {
    m.len() > 0 && is_ident_char(m[0]) && forall|i: int|
        0 <= i < m.len() ==> is_mnemonic_char(#[trigger] m[i])
}

/// The name a mnemonic's function is keyed by: the mnemonic without `(_)`.
pub open spec fn fn_key(m: Seq<char>) -> Seq<char> {
    replace_all(m, "(_)"@, Seq::empty())
}

/// A pattern's mnemonic, or, when `keyed`, its function key.
pub open spec fn name_of(p: PatternModel, keyed: bool) -> Seq<char> {
    if keyed {
        fn_key(p.variant.mnemonic)
    } else {
        p.variant.mnemonic
    }
}

/// A body line that can be emitted: literal lines always, templates when they expand.
pub open spec fn line_ok(l: LineModel) -> bool {
    match l {
        LineModel::Asm(s) => template_ok(s),
        LineModel::Rust(_) => true,
    }
}

/// A temporary is named `%t` and a number, and lives in a general,
/// floating-point or memory slot.
pub open spec fn temp_ok(m: (Seq<char>, OpVariant)) -> bool {
    is_temp_name(m.0) && (m.1 == OpVariant::Gr || m.1 == OpVariant::Fp || m.1 == OpVariant::Mem)
}

/// What a built pattern satisfies.
pub open spec fn pattern_ok(p: PatternModel) -> bool {
    &&& mnemonic_ok(p.variant.mnemonic)
    &&& variant_ty_ok(p.variant)
    &&& forall|i: int| 0 <= i < p.lines.len() ==> line_ok(#[trigger] p.lines[i])
    &&& forall|i: int| 0 <= i < p.maps.len() ==> temp_ok(#[trigger] p.maps[i])
}

/// The operand at `pos` of the node being lowered.
pub open spec fn op_ref(pos: Seq<char>) -> Seq<char> {
    "&node.get_op("@ + pos + ")"@
}

/// The block that binds `name` to a usable operand for position `pos`: a
/// constant is created first when the operand needs one; then the operand is
/// used directly, or the instructions that compute it are emitted into the
/// scratch slot `slot`, which is then used; otherwise lowering fails.
pub open spec fn materialize(name: Seq<char>, pos: Seq<char>, slot: Seq<char>, d: nat) -> Seq<
    Seq<char>,
> {
    let op = op_ref(pos);
    seq![
        tabs(d) + "let "@ + name + " = {"@,
        tabs(d + 1) + "let mut consta = None;"@,
        tabs(d + 1) + "if OperationHandler::new().requires_new_const("@ + op
            + ") { consta = Some(OperationHandler::new().create_const(module)) }"@,
        tabs(d + 1) + "if OperationHandler::new().just_op("@ + op + ") {"@,
        tabs(d + 2) + "OperationHandler::new().compile_op("@ + op
            + ", consta.as_ref()).unwrap()"@,
        tabs(d + 1) + "} else if OperationHandler::new().inserts_instrs("@ + op + ") {"@,
        tabs(d + 2) + "let Some(instrs) = OperationHandler::new().compile_instrs("@ + op
            + ", consta.as_ref(), DagTmpInfo::new("@ + slot
            + ", node.get_ty())) else { panic!() };"@,
        tabs(d + 2) + "asm.extend_from_slice(&instrs);"@,
        tabs(d + 2) + "Operand::Tmp("@ + slot + ")"@,
        tabs(d + 1) + "} else { panic!() }"@,
        tabs(d) + "};"@,
    ]
}

/// Materialisation of a constrained operand position; none when unconstrained.
pub open spec fn materialize_opt(
    k: Option<OpVariant>,
    name: Seq<char>,
    pos: Seq<char>,
    slot: Seq<char>,
    d: nat,
) -> Seq<Seq<char>> {
    if k is Some {
        materialize(name, pos, slot, d)
    } else {
        Seq::empty()
    }
}

/// The emitted form of a body line.
pub open spec fn line_text(l: LineModel) -> Seq<char> {
    match l {
        LineModel::Rust(s) => s,
        LineModel::Asm(s) => "asm.push("@ + template_text(s) + ");"@,
    }
}

/// The emitted form of the body lines, in order.
pub open spec fn body_lines(ls: Seq<LineModel>) -> Seq<Seq<char>> {
    ls.map_values(|l: LineModel| line_text(l))
}

/// Operand materialisation at depth `d`, then the body lines.
pub open spec fn asm_lines(p: PatternModel, d: nat) -> Seq<Seq<char>> {
    materialize_opt(p.variant.ls, "ls"@, "0"@, "0xF0"@, d) + materialize_opt(
        p.variant.rs,
        "rs"@,
        "1"@,
        "0xF1"@,
        d,
    ) + materialize_opt(p.variant.op3, "op3"@, "2"@, "0xF2"@, d) + body_lines(p.lines)
}

fn tab_line(d: usize, a: &str, b: &str, c: &str) -> (r: String)
    requires
        d <= usize::MAX / 2,
    ensures
        r@ == tabs(d as nat) + a@ + b@ + c@,
{
    let mut s = make_tabs(d);
    s.append(a);
    s.append(b);
    s.append(c);
    s
}

fn materialize_operand(name: &str, pos: &str, slot: &str, d: usize, code: &mut Vec<String>)
    requires
        d + 2 <= usize::MAX / 2,
    ensures
        views(final(code)@) == views(old(code)@) + materialize(name@, pos@, slot@, d as nat),
{
    let mut op = String::from_str("&node.get_op(");
    op.append(pos);
    op.append(")");
    let o = op.as_str();
    let l0 = tab_line(d, "let ", name, " = {");
    let l1 = tab_line(d + 1, "let mut consta = None;", "", "");
    let l2 = tab_line(
        d + 1,
        "if OperationHandler::new().requires_new_const(",
        o,
        ") { consta = Some(OperationHandler::new().create_const(module)) }",
    );
    let l3 = tab_line(d + 1, "if OperationHandler::new().just_op(", o, ") {");
    let l4 = tab_line(
        d + 2,
        "OperationHandler::new().compile_op(",
        o,
        ", consta.as_ref()).unwrap()",
    );
    let l5 = tab_line(d + 1, "} else if OperationHandler::new().inserts_instrs(", o, ") {");
    let mut l6 = tab_line(
        d + 2,
        "let Some(instrs) = OperationHandler::new().compile_instrs(",
        o,
        ", consta.as_ref(), DagTmpInfo::new(",
    );
    l6.append(slot);
    l6.append(", node.get_ty())) else { panic!() };");
    let l7 = tab_line(d + 2, "asm.extend_from_slice(&instrs);", "", "");
    let l8 = tab_line(d + 2, "Operand::Tmp(", slot, ")");
    let l9 = tab_line(d + 1, "} else { panic!() }", "", "");
    let l10 = tab_line(d, "};", "", "");
    proof {
        reveal_strlit("");
    }
    let ghost m = seq![l0@, l1@, l2@, l3@, l4@, l5@, l6@, l7@, l8@, l9@, l10@];
    assert(m =~= materialize(name@, pos@, slot@, d as nat));
    let ghost before = views(code@);
    code.push(l0);
    code.push(l1);
    code.push(l2);
    code.push(l3);
    code.push(l4);
    code.push(l5);
    code.push(l6);
    code.push(l7);
    code.push(l8);
    code.push(l9);
    code.push(l10);
    assert(views(code@) =~= before + m);
}

fn materialize_opt_operand(
    k: Option<OpVariant>,
    name: &str,
    pos: &str,
    slot: &str,
    d: usize,
    code: &mut Vec<String>,
)
    requires
        d + 2 <= usize::MAX / 2,
    ensures
        views(final(code)@) == views(old(code)@) + materialize_opt(k, name@, pos@, slot@, d as nat),
{
    if k.is_some() {
        materialize_operand(name, pos, slot, d, code);
    } else {
        assert(views(code@) =~= views(code@) + materialize_opt(k, name@, pos@, slot@, d as nat));
    }
}

/// Emits the operand materialisation of a pattern at depth `close`, then its
/// body lines: literal lines verbatim, templates expanded.
pub fn construct_asm(target: AstTarget, pattern: &Pattern, code: &mut Vec<String>, close: usize)
    requires
        close + 2 <= usize::MAX / 2,
        pattern_ok(pattern@),
    ensures
        views(final(code)@) == views(old(code)@) + asm_lines(pattern@, close as nat),
{
    let ghost start = views(code@);
    materialize_opt_operand(pattern.variant.ls, "ls", "0", "0xF0", close, code);
    materialize_opt_operand(pattern.variant.rs, "rs", "1", "0xF1", close, code);
    materialize_opt_operand(pattern.variant.op3, "op3", "2", "0xF2", close, code);
    let ghost base = views(code@);
    let ghost ls = pattern@.lines;
    let n = pattern.lines.len();
    let mut i: usize = 0;
    while i < n
        invariant
            i <= n,
            n == ls.len(),
            ls == pattern@.lines,
            pattern_ok(pattern@),
            views(code@) == base + body_lines(ls.take(i as int)),
        decreases n - i,
    {
        let ghost before = views(code@);
        let s = match &pattern.lines[i] {
            AsmLine::Rust(rust) => rust.clone(),
            AsmLine::Asm(template) => {
                assert(line_ok(ls[i as int]));
                let mut s = String::from_str("asm.push(");
                let e = construct_assembly_build(target, template.as_str());
                s.append(e.as_str());
                s.append(");");
                s
            },
        };
        assert(s@ == line_text(ls[i as int]));
        code.push(s);
        assert(ls.take(i + 1) =~= ls.take(i as int).push(ls[i as int]));
        assert(body_lines(ls.take(i + 1)) =~= body_lines(ls.take(i as int)).push(s@));
        assert(views(code@) =~= before.push(s@));
        i = i + 1;
    }
    assert(ls.take(n as int) =~= ls);
    assert(views(code@) =~= start + asm_lines(pattern@, close as nat));
}

} // verus!

verus! {

/// One opening line per guard, each nested one level deeper.
pub open spec fn open_guards(g: Seq<Seq<char>>) -> Seq<Seq<char>> {
    Seq::new(g.len(), |j: int| tabs(j as nat) + "if "@ + g[j] + " {"@)
}

/// The closing lines of `k` nested guards, innermost first.
pub open spec fn close_guards(k: nat) -> Seq<Seq<char>> {
    Seq::new(k, |j: int| tabs((k - 1 - j) as nat) + "}"@)
}

/// The call of the pattern's hook, if it has one.
pub open spec fn hook_lines(h: Option<Seq<char>>, d: nat) -> Seq<Seq<char>> {
    match h {
        Some(h) => seq![tabs(d) + h + "(asm, node);"@],
        None => Seq::empty(),
    }
}

/// What one pattern contributes to its mnemonic's function: its guards, each
/// opening one more nesting level; operand materialisation and body lines; the
/// hook call and `return;` innermost; then every level closed again.
pub open spec fn pattern_block(p: PatternModel) -> Seq<Seq<char>> {
    let g = guards(p.variant);
    let k = g.len();
    open_guards(g) + asm_lines(p, k) + hook_lines(p.hook, k) + seq![tabs(k) + "return;"@]
        + close_guards(k)
}

/// Builds `pattern_block(pattern@)`.
pub fn pattern_lines(target: AstTarget, pattern: &Pattern) -> (r: Vec<String>)
    requires
        pattern_ok(pattern@),
    ensures
        views(r@) == pattern_block(pattern@),
{
    let conds = conditions(&pattern.variant);
    let ghost g = views(conds@);
    let k = conds.len();
    proof {
        crate::cond::lemma_guard_count(pattern@.variant);
    }
    let mut code: Vec<String> = Vec::new();
    let mut i: usize = 0;
    while i < k
        invariant
            i <= k,
            k == conds@.len(),
            k <= 5,
            g == views(conds@),
            views(code@) == open_guards(g).take(i as int),
        decreases k - i,
    {
        let l = tab_line(i, "if ", conds[i].as_str(), " {");
        let ghost before = views(code@);
        code.push(l);
        assert(views(code@) =~= before.push(l@));
        assert(open_guards(g)[i as int] == l@);
        assert(views(code@) =~= open_guards(g).take(i + 1));
        i = i + 1;
    }
    assert(open_guards(g).take(k as int) =~= open_guards(g));
    construct_asm(target, pattern, &mut code, k);
    let ghost after_asm = views(code@);
    match &pattern.hook {
        Some(hook) => {
            let l = tab_line(k, hook.as_str(), "(asm, node);", "");
            code.push(l);
        },
        None => {},
    }
    proof {
        reveal_strlit("");
    }
    assert(views(code@) =~= after_asm + hook_lines(pattern@.hook, k as nat));
    let r = tab_line(k, "return;", "", "");
    code.push(r);
    let ghost before_close = views(code@);
    let mut j: usize = 0;
    while j < k
        invariant
            j <= k,
            k <= 5,
            views(code@) == before_close + close_guards(k as nat).take(j as int),
        decreases k - j,
    {
        let l = tab_line(k - 1 - j, "}", "", "");
        let ghost before = views(code@);
        code.push(l);
        proof {
            reveal_strlit("");
        }
        assert(views(code@) =~= before.push(l@));
        assert(close_guards(k as nat)[j as int] == l@);
        assert(views(code@) =~= before_close + close_guards(k as nat).take(j + 1));
        j = j + 1;
    }
    assert(close_guards(k as nat).take(k as int) =~= close_guards(k as nat));
    assert(views(code@) =~= pattern_block(pattern@));
    code
}

} // verus!

verus! {

/// The mnemonics of the patterns (their function keys when `keyed`), each
/// once, in order of first appearance.
pub open spec fn first_seen(ps: Seq<PatternModel>, keyed: bool) -> Seq<Seq<char>>
    decreases ps.len(),
{
    if ps.len() == 0 {
        Seq::empty()
    } else {
        let seen = first_seen(ps.drop_last(), keyed);
        let m = name_of(ps.last(), keyed);
        if seen.contains(m) {
            seen
        } else {
            seen.push(m)
        }
    }
}

/// The blocks of the patterns whose function key is `m`, in input order.
pub open spec fn mnemonic_body(ps: Seq<PatternModel>, m: Seq<char>) -> Seq<Seq<char>>
    decreases ps.len(),
{
    if ps.len() == 0 {
        Seq::empty()
    } else {
        mnemonic_body(ps.drop_last(), m) + if name_of(ps.last(), true) == m {
            pattern_block(ps.last())
        } else {
            Seq::empty()
        }
    }
}

/// Every pattern is well formed.
pub open spec fn all_ok(ps: Seq<PatternModel>) -> bool {
    forall|i: int| 0 <= i < ps.len() ==> pattern_ok(#[trigger] ps[i])
}

fn name_string(m: &String, keyed: bool) -> (r: String)
    ensures
        r@ == (if keyed {
            fn_key(m@)
        } else {
            m@
        }),
{
    proof {
        reveal_strlit("");
        assert(""@ =~= Seq::<char>::empty());
    }
    if keyed {
        replace_str(m.as_str(), "(_)", "")
    } else {
        m.clone()
    }
}

/// Builds `first_seen(models(ps@), keyed)`.
pub fn mnemonics(ps: &Vec<Pattern>, keyed: bool) -> (r: Vec<String>)
    ensures
        views(r@) == first_seen(models(ps@), keyed),
{
    let n = ps.len();
    let mut names: Vec<String> = Vec::new();
    let mut i: usize = 0;
    while i < n
        invariant
            i <= n,
            n == ps@.len(),
            views(names@) == first_seen(models(ps@).take(i as int), keyed),
        decreases n - i,
    {
        let m = &name_string(&ps[i].variant.mnemonic, keyed);
        assert(m@ == name_of(models(ps@)[i as int], keyed));
        let mut j: usize = 0;
        let mut found = false;
        while j < names.len()
            invariant
                j <= names@.len(),
                !found ==> forall|x: int| 0 <= x < j ==> names@[x]@ != m@,
                found ==> views(names@).contains(m@),
            decreases names@.len() - j,
        {
            if str_eq(names[j].as_str(), m.as_str()) {
                found = true;
                assert(views(names@)[j as int] == m@);
            }
            j = j + 1;
        }
        assert(models(ps@).take(i + 1).drop_last() =~= models(ps@).take(i as int));
        if !found {
            assert(!views(names@).contains(m@)) by {
                if views(names@).contains(m@) {
                    let x = choose|x: int| 0 <= x < views(names@).len() && views(names@)[x] == m@;
                    assert(names@[x]@ == m@);
                }
            }
            let ghost before = views(names@);
            names.push(m.clone());
            assert(views(names@) =~= before.push(m@));
        }
        i = i + 1;
    }
    assert(models(ps@).take(n as int) =~= models(ps@));
    names
}

/// Builds `mnemonic_body(models(ps@), m@)`.
pub fn mnemonic_lines(target: AstTarget, ps: &Vec<Pattern>, m: &str) -> (r: Vec<String>)
    requires
        all_ok(models(ps@)),
    ensures
        views(r@) == mnemonic_body(models(ps@), m@),
{
    let n = ps.len();
    let mut out: Vec<String> = Vec::new();
    let mut i: usize = 0;
    while i < n
        invariant
            i <= n,
            n == ps@.len(),
            all_ok(models(ps@)),
            views(out@) == mnemonic_body(models(ps@).take(i as int), m@),
        decreases n - i,
    {
        assert(models(ps@).take(i + 1).drop_last() =~= models(ps@).take(i as int));
        let ghost before = views(out@);
        let key = name_string(&ps[i].variant.mnemonic, true);
        if str_eq(key.as_str(), m) {
            assert(pattern_ok(models(ps@)[i as int]));
            let mut block = pattern_lines(target, &ps[i]);
            let ghost b = views(block@);
            out.append(&mut block);
            assert(views(out@) =~= before + b);
        } else {
            assert(views(out@) =~= before + Seq::<Seq<char>>::empty());
        }
        i = i + 1;
    }
    assert(models(ps@).take(n as int) =~= models(ps@));
    out
}

/// The type guard as a conjunct.
pub open spec fn ty_conjunct(ty: Option<Seq<char>>) -> Seq<char> {
    match ty {
        Some(t) => (if is_vector_ty(t) {
            "&& "@
        } else {
            " && "@
        }) + type_guard(t),
        None => Seq::empty(),
    }
}

/// The guard of a pattern as one condition: the opcode, then every guard
/// conjoined. It opens one block and leaves the condition of a second one
/// open; the caller adds ` {`.
pub open spec fn cond_text(v: VariantModel) -> Seq<char> {
    "if let DagOpCode::"@ + v.mnemonic + " = node.get_opcode()  {if true "@ + prefixed(
        " && "@,
        plain_guards(v),
    ) + ty_conjunct(v.ty)
}

/// The lines that ask for the scratch slot of a constrained operand.
pub open spec fn scratch_lines(
    k: Option<OpVariant>,
    name: Seq<char>,
    pos: Seq<char>,
    slot: Seq<char>,
) -> Seq<Seq<char>> {
    if k is Some {
        seq![
            "\tlet "@ + name + "_tmps = OperationHandler::new().tmp("@ + op_ref(pos) + ", "@ + slot
                + ");"@,
            "\ttmps.extend_from_slice(&"@ + name + "_tmps);"@,
        ]
    } else {
        Seq::empty()
    }
}

/// The call that sets a temporary's register class.
pub open spec fn require_call(k: OpVariant) -> Seq<char> {
    match k {
        OpVariant::Gr => "tmp.require_gr()"@,
        OpVariant::Fp => "tmp.require_fp()"@,
        _ => "tmp.require_mem()"@,
    }
}

/// The lines that declare one temporary: its number, size and class.
pub open spec fn temp_lines(m: (Seq<char>, OpVariant)) -> Seq<Seq<char>> {
    seq![
        "\tlet mut tmp = dag::DagTmpInfo::new("@ + m.0.subrange(2, m.0.len() as int)
            + ", node.get_ty());"@,
        "\ttmp.size = node.get_ty();"@,
        "\t"@ + require_call(m.1) + ";"@,
        "\ttmps.push(tmp);"@,
    ]
}

/// The declarations of all temporaries, in order.
pub open spec fn temps_lines(ms: Seq<(Seq<char>, OpVariant)>) -> Seq<Seq<char>>
    decreases ms.len(),
{
    if ms.len() == 0 {
        Seq::empty()
    } else {
        temps_lines(ms.drop_last()) + temp_lines(ms.last())
    }
}

/// Whether a pattern has requirements to report: temporaries, or a left or
/// right operand that may need a scratch slot.
pub open spec fn needs_tmps(p: PatternModel) -> bool {
    p.maps.len() > 0 || p.variant.ls is Some || p.variant.rs is Some
}

/// The guarded block that returns a pattern's temporary requirements.
pub open spec fn tmps_block(p: PatternModel) -> Seq<Seq<char>> {
    if needs_tmps(p) {
        seq![cond_text(p.variant) + " {"@, "\tlet mut tmps = Vec::new();"@] + scratch_lines(
            p.variant.ls,
            "ls"@,
            "0"@,
            "0xF0"@,
        ) + scratch_lines(p.variant.rs, "rs"@, "1"@, "0xF1"@) + temps_lines(p.maps) + seq![
            "\treturn tmps;"@,
            "}\t}"@,
        ]
    } else {
        Seq::empty()
    }
}

/// The temporary-requirement blocks of all patterns, in order.
pub open spec fn tmps_body(ps: Seq<PatternModel>) -> Seq<Seq<char>>
    decreases ps.len(),
{
    if ps.len() == 0 {
        Seq::empty()
    } else {
        tmps_body(ps.drop_last()) + tmps_block(ps.last())
    }
}

/// The line that reports one clobbered register, any carriage return
/// removed from its name.
pub open spec fn clobber_line(r: Seq<char>) -> Seq<char> {
    "\toverwrittes.push(Reg::"@ + replace_all(r, "\r"@, Seq::empty()) + ");"@
}

/// The guarded block that returns a pattern's clobbered registers.
pub open spec fn clobber_block(p: PatternModel) -> Seq<Seq<char>> {
    if p.clobbers.len() > 0 {
        seq![cond_text(p.variant) + " {"@, "\tlet mut overwrittes = Vec::new();"@]
            + p.clobbers.map_values(|r: Seq<char>| clobber_line(r)) + seq![
            "\treturn overwrittes;"@,
            "}\t}"@,
        ]
    } else {
        Seq::empty()
    }
}

/// The clobber blocks of all patterns, in order.
pub open spec fn clobbers_body(ps: Seq<PatternModel>) -> Seq<Seq<char>>
    decreases ps.len(),
{
    if ps.len() == 0 {
        Seq::empty()
    } else {
        clobbers_body(ps.drop_last()) + clobber_block(ps.last())
    }
}

} // verus!

verus! {

/// The three arguments of every lowering function.
pub open spec fn compile_args() -> Seq<(Seq<char>, Seq<char>)> {
    seq![("asm"@, "&mut Vec<Asm>"@), ("node"@, "DagNode"@), ("module"@, "&mut crate::IR::Module"@)]
}

/// The argument of the two query functions.
pub open spec fn query_args() -> Seq<(Seq<char>, Seq<char>)> {
    seq![("node"@, "&dag::DagNode"@)]
}

/// The dispatcher's arm for one mnemonic.
pub open spec fn dispatch_arm(m: Seq<char>) -> Seq<char> {
    "  DagOpCode::"@ + m + " => compile_"@ + fn_key(m) + "(asm, node, module),"@
}

/// The dispatcher's arm for opcodes that no pattern names.
pub open spec fn dispatch_fallback() -> Seq<char> {
    "  unimplemented => todo!(\"{:?}\", node),"@
}

/// The last line of a mnemonic's function, reached when no guard held.
pub open spec fn no_match() -> Seq<char> {
    "todo!(\"not yet compilable variant: {} ({})\", node, node.get_ty())"@
}

/// The body of the dispatcher: one arm per mnemonic, in order of first appearance.
pub open spec fn dispatcher_body(ps: Seq<PatternModel>) -> Seq<Seq<char>> {
    seq!["match node.get_opcode() {"@] + first_seen(ps, false).map_values(|m: Seq<char>| dispatch_arm(m))
        + seq![dispatch_fallback(), "}"@]
}

/// The dispatcher function.
pub open spec fn dispatcher_fn(ps: Seq<PatternModel>) -> (
    Seq<char>,
    Option<Seq<char>>,
    Seq<(Seq<char>, Seq<char>)>,
    Option<Seq<char>>,
    Seq<Seq<char>>,
) {
    ("compile"@, Some("pub"@), compile_args(), None, dispatcher_body(ps))
}

/// The function of one function key: its patterns' blocks in input order, the first
/// whose guards hold returning, then the failure line.
pub open spec fn mnemonic_fn(ps: Seq<PatternModel>, m: Seq<char>) -> (
    Seq<char>,
    Option<Seq<char>>,
    Seq<(Seq<char>, Seq<char>)>,
    Option<Seq<char>>,
    Seq<Seq<char>>,
) {
    ("compile_"@ + m, Some("pub"@), compile_args(), None, mnemonic_body(ps, m).push(no_match()))
}

/// The temporary-requirements function; empty when no guard holds.
pub open spec fn tmps_fn(ps: Seq<PatternModel>) -> (
    Seq<char>,
    Option<Seq<char>>,
    Seq<(Seq<char>, Seq<char>)>,
    Option<Seq<char>>,
    Seq<Seq<char>>,
) {
    (
        "tmps"@,
        Some("pub"@),
        query_args(),
        Some("Vec<dag::DagTmpInfo>"@),
        tmps_body(ps).push("Vec::new()"@),
    )
}

/// The clobbered-registers function; empty when no guard holds.
pub open spec fn clobbers_fn(ps: Seq<PatternModel>) -> (
    Seq<char>,
    Option<Seq<char>>,
    Seq<(Seq<char>, Seq<char>)>,
    Option<Seq<char>>,
    Seq<Seq<char>>,
) {
    ("overwrittes"@, Some("pub"@), query_args(), Some("Vec<Reg>"@), clobbers_body(ps).push("Vec::new()"@))
}

/// All emitted functions: the dispatcher, one per function key, then the two tables.
pub open spec fn emitted_fns(ps: Seq<PatternModel>) -> Seq<
    (Seq<char>, Option<Seq<char>>, Seq<(Seq<char>, Seq<char>)>, Option<Seq<char>>, Seq<Seq<char>>),
> {
    seq![dispatcher_fn(ps)] + first_seen(ps, true).map_values(|m: Seq<char>| mnemonic_fn(ps, m)) + seq![
        tmps_fn(ps),
        clobbers_fn(ps),
    ]
}

/// The generated document.
pub open spec fn generated(ps: Seq<PatternModel>) -> Seq<char> {
    "#[allow(warnings)]\n"@ + scope_text(emitted_fns(ps))
}

fn add_lines(f: &mut Function, lines: &Vec<String>)
    ensures
        fn_parts(*final(f)).0 == fn_parts(*old(f)).0,
        fn_parts(*final(f)).1 == fn_parts(*old(f)).1,
        fn_parts(*final(f)).2 == fn_parts(*old(f)).2,
        fn_parts(*final(f)).3 == fn_parts(*old(f)).3,
        fn_parts(*final(f)).4 == fn_parts(*old(f)).4 + views(lines@),
        fn_is_plain(*old(f)) ==> fn_is_plain(*final(f)),
{
    let ghost start = fn_parts(*f);
    let n = lines.len();
    let mut i: usize = 0;
    while i < n
        invariant
            i <= n,
            n == lines@.len(),
            fn_parts(*f).0 == start.0,
            fn_parts(*f).1 == start.1,
            fn_parts(*f).2 == start.2,
            fn_parts(*f).3 == start.3,
            fn_parts(*f).4 == start.4 + views(lines@).take(i as int),
            fn_is_plain(*old(f)) ==> fn_is_plain(*f),
        decreases n - i,
    {
        add_line(f, lines[i].as_str());
        assert(views(lines@).take(i + 1) =~= views(lines@).take(i as int).push(lines@[i as int]@));
        assert(start.4 + views(lines@).take(i + 1) =~= start.4 + views(lines@).take(i as int).push(
            lines@[i as int]@,
        ));
        i = i + 1;
    }
    assert(views(lines@).take(n as int) =~= views(lines@));
}

/// A public lowering function with the given name and body.
fn compile_function(name: &str, lines: &Vec<String>) -> (f: Function)
    ensures
        fn_parts(f) == (name@, Some("pub"@), compile_args(), Option::<Seq<char>>::None, views(
            lines@,
        )),
        fn_is_plain(f),
{
    let mut f = new_function(name);
    set_vis(&mut f, "pub");
    add_arg(&mut f, "asm", "&mut Vec<Asm>");
    add_arg(&mut f, "node", "DagNode");
    add_arg(&mut f, "module", "&mut crate::IR::Module");
    add_lines(&mut f, lines);
    assert(fn_parts(f).2 =~= compile_args());
    assert(fn_parts(f).4 =~= views(lines@));
    f
}

/// A public query function over a node, with the given name, result and body.
fn query_function(name: &str, ret: &str, lines: &Vec<String>) -> (f: Function)
    ensures
        fn_parts(f) == (name@, Some("pub"@), query_args(), Some(ret@), views(lines@)),
        fn_is_plain(f),
{
    let mut f = new_function(name);
    set_vis(&mut f, "pub");
    add_arg(&mut f, "node", "&dag::DagNode");
    set_ret(&mut f, ret);
    add_lines(&mut f, lines);
    assert(fn_parts(f).2 =~= query_args());
    assert(fn_parts(f).4 =~= views(lines@));
    f
}

fn push_str_line(code: &mut Vec<String>, s: &str)
    ensures
        views(final(code)@) == views(old(code)@).push(s@),
{
    let ghost before = views(code@);
    code.push(String::from_str(s));
    assert(views(code@) =~= before.push(s@));
}

/// Generates pattern-matching lowering code from a list of patterns.
pub struct CodeEmitter {
    pub patterns: Vec<Pattern>,
}

impl CodeEmitter {
    /// The guard of a pattern as one condition (see `cond_text`).
    pub fn construct_cond(&self, pat: &Pattern) -> (r: String)
        requires
            variant_ty_ok(pat@.variant),
        ensures
            r@ == cond_text(pat@.variant),
    {
        let conds = conditions(&pat.variant);
        let ghost g = views(conds@);
        let ghost pg = plain_guards(pat@.variant);
        let mut s = String::from_str("if let DagOpCode::");
        s.append(pat.variant.mnemonic.as_str());
        s.append(" = node.get_opcode()  {if true ");
        let ghost head = s@;
        assert(g == pg + ty_guard(pat@.variant.ty));
        assert(pat.variant.ty is Some ==> ty_guard(pat@.variant.ty).len() == 1);
        assert(pat.variant.ty is None ==> ty_guard(pat@.variant.ty).len() == 0);
        assert(g.len() == conds@.len());
        let k = if pat.variant.ty.is_some() {
            conds.len() - 1
        } else {
            conds.len()
        };
        assert(g == pg + ty_guard(pat@.variant.ty));
        assert(g.subrange(0, k as int) =~= pg);
        assert(pg.subrange(0, k as int) =~= pg);
        let mut i: usize = 0;
        while i < k
            invariant
                i <= k,
                k == pg.len(),
                k <= conds@.len(),
                g == views(conds@),
                g.subrange(0, k as int) == pg,
                s@ + prefixed(" && "@, pg.subrange(i as int, k as int)) == head + prefixed(
                    " && "@,
                    pg,
                ),
            decreases k - i,
        {
            let ghost before = s@;
            s.append(" && ");
            s.append(conds[i].as_str());
            assert(pg[i as int] == g[i as int]);
            assert(pg.subrange(i as int, k as int).drop_first() =~= pg.subrange(i + 1, k as int));
            assert(before + prefixed(" && "@, pg.subrange(i as int, k as int)) =~= s@ + prefixed(
                " && "@,
                pg.subrange(i + 1, k as int),
            ));
            i = i + 1;
        }
        assert(pg.subrange(k as int, k as int) =~= Seq::<Seq<char>>::empty());
        let ghost mid = s@;
        match &pat.variant.ty {
            Some(t) => {
                if t.as_str().get_char(0) == '<' {
                    s.append("&& ");
                } else {
                    s.append(" && ");
                }
                assert(g[k as int] == type_guard(t@));
                s.append(conds[k].as_str());
            },
            None => {},
        }
        assert(s@ =~= mid + ty_conjunct(pat@.variant.ty));
        assert(s@ =~= cond_text(pat@.variant));
        s
    }

    fn scratch(k: Option<OpVariant>, name: &str, pos: &str, slot: &str, code: &mut Vec<String>)
        ensures
            views(final(code)@) == views(old(code)@) + scratch_lines(k, name@, pos@, slot@),
    {
        let ghost before = views(code@);
        if k.is_some() {
            let mut a = String::from_str("\tlet ");
            a.append(name);
            a.append("_tmps = OperationHandler::new().tmp(");
            a.append("&node.get_op(");
            a.append(pos);
            a.append(")");
            a.append(", ");
            a.append(slot);
            a.append(");");
            let mut b = String::from_str("\ttmps.extend_from_slice(&");
            b.append(name);
            b.append("_tmps);");
            let ghost av = a@;
            code.push(a);
            code.push(b);
            assert(av =~= "\tlet "@ + name@ + "_tmps = OperationHandler::new().tmp("@ + op_ref(pos@)
                + ", "@ + slot@ + ");"@);
        }
        assert(views(code@) =~= before + scratch_lines(k, name@, pos@, slot@));
    }

    fn temp(m: &TempMap, code: &mut Vec<String>)
        requires
            temp_ok(m@),
        ensures
            views(final(code)@) == views(old(code)@) + temp_lines(m@),
    {
        let ghost before = views(code@);
        let n = m.var.as_str().unicode_len();
        let mut a = String::from_str("\tlet mut tmp = dag::DagTmpInfo::new(");
        a.append(m.var.as_str().substring_char(2, n));
        a.append(", node.get_ty());");
        let mut c = String::from_str("\t");
        match m.ty {
            OpVariant::Gr => c.append("tmp.require_gr()"),
            OpVariant::Fp => c.append("tmp.require_fp()"),
            _ => c.append("tmp.require_mem()"),
        }
        c.append(";");
        let ghost av = a@;
        let ghost cv = c@;
        assert(cv == "\t"@ + require_call(m.ty) + ";"@);
        assert(av == temp_lines(m@)[0]);
        let ghost v0 = views(code@);
        code.push(a);
        assert(views(code@) =~= v0.push(av));
        push_str_line(code, "\ttmp.size = node.get_ty();");
        let ghost v1 = views(code@);
        code.push(c);
        assert(views(code@) =~= v1.push(cv));
        push_str_line(code, "\ttmps.push(tmp);");
        assert(views(code@) =~= before + temp_lines(m@));
    }

    fn tmps_block_lines(&self, pat: &Pattern, code: &mut Vec<String>)
        requires
            pattern_ok(pat@),
        ensures
            views(final(code)@) == views(old(code)@) + tmps_block(pat@),
    {
        let ghost start = views(code@);
        if !(pat.maps.len() > 0 || pat.variant.ls.is_some() || pat.variant.rs.is_some()) {
            assert(views(code@) =~= start + tmps_block(pat@));
            return ;
        }
        let mut c = self.construct_cond(pat);
        c.append(" {");
        code.push(c);
        push_str_line(code, "\tlet mut tmps = Vec::new();");
        Self::scratch(pat.variant.ls, "ls", "0", "0xF0", code);
        Self::scratch(pat.variant.rs, "rs", "1", "0xF1", code);
        let ghost mid = views(code@);
        let ghost ms = pat@.maps;
        let n = pat.maps.len();
        let mut i: usize = 0;
        while i < n
            invariant
                i <= n,
                n == ms.len(),
                ms == pat@.maps,
                pattern_ok(pat@),
                views(code@) == mid + temps_lines(ms.take(i as int)),
            decreases n - i,
        {
            assert(temp_ok(ms[i as int]));
            Self::temp(&pat.maps[i], code);
            assert(ms.take(i + 1).drop_last() =~= ms.take(i as int));
            assert(views(code@) =~= mid + temps_lines(ms.take(i + 1)));
            i = i + 1;
        }
        assert(ms.take(n as int) =~= ms);
        push_str_line(code, "\treturn tmps;");
        push_str_line(code, "}\t}");
        assert(views(code@) =~= start + tmps_block(pat@));
    }

    fn clobber_block_lines(&self, pat: &Pattern, code: &mut Vec<String>)
        requires
            pattern_ok(pat@),
        ensures
            views(final(code)@) == views(old(code)@) + clobber_block(pat@),
    {
        let ghost start = views(code@);
        if pat.clobbers.len() == 0 {
            assert(views(code@) =~= start + clobber_block(pat@));
            return ;
        }
        let mut c = self.construct_cond(pat);
        c.append(" {");
        code.push(c);
        push_str_line(code, "\tlet mut overwrittes = Vec::new();");
        let ghost mid = views(code@);
        let ghost rs = pat@.clobbers;
        let n = pat.clobbers.len();
        let mut i: usize = 0;
        while i < n
            invariant
                i <= n,
                n == rs.len(),
                rs == pat@.clobbers,
                views(code@) == mid + rs.take(i as int).map_values(|r: Seq<char>| clobber_line(r)),
            decreases n - i,
        {
            let ghost before = views(code@);
            let mut l = String::from_str("\toverwrittes.push(Reg::");
            proof {
                reveal_strlit("");
                assert(""@ =~= Seq::<char>::empty());
            }
            let name = replace_str(pat.clobbers[i].as_str(), "\r", "");
            l.append(name.as_str());
            l.append(");");
            code.push(l);
            assert(views(code@) =~= before.push(l@));
            assert(l@ == clobber_line(rs[i as int]));
            assert(rs.take(i + 1) =~= rs.take(i as int).push(rs[i as int]));
            assert(rs.take(i + 1).map_values(|r: Seq<char>| clobber_line(r)) =~= rs.take(i as int).map_values(|r: Seq<char>| clobber_line(r)).push(l@));
            assert(views(code@) =~= mid + rs.take(i + 1).map_values(|r: Seq<char>| clobber_line(r)));
            i = i + 1;
        }
        assert(rs.take(n as int) =~= rs);
        push_str_line(code, "\treturn overwrittes;");
        push_str_line(code, "}\t}");
        assert(views(code@) =~= start + clobber_block(pat@));
    }

    /// Adds the temporary-requirements function to the scope.
    pub fn gen_tmps(&self, scope: &mut Scope, _target: AstTarget)
        requires
            all_ok(models(self.patterns@)),
        ensures
            scope_fns(*final(scope)) == scope_fns(*old(scope)).push(tmps_fn(models(self.patterns@))),
            scope_is_plain(*old(scope)) ==> scope_is_plain(*final(scope)),
    {
        let ps = &self.patterns;
        let n = ps.len();
        let mut code: Vec<String> = Vec::new();
        let mut i: usize = 0;
        while i < n
            invariant
                i <= n,
                n == ps@.len(),
                ps == &self.patterns,
                all_ok(models(ps@)),
                views(code@) == tmps_body(models(ps@).take(i as int)),
            decreases n - i,
        {
            assert(pattern_ok(models(ps@)[i as int]));
            self.tmps_block_lines(&ps[i], &mut code);
            assert(models(ps@).take(i + 1).drop_last() =~= models(ps@).take(i as int));
            i = i + 1;
        }
        assert(models(ps@).take(n as int) =~= models(ps@));
        push_str_line(&mut code, "Vec::new()");
        let f = query_function("tmps", "Vec<dag::DagTmpInfo>", &code);
        push_function(scope, f);
    }

    /// Adds the clobbered-registers function to the scope.
    pub fn gen_overwrittes(&self, scope: &mut Scope, _target: AstTarget)
        requires
            all_ok(models(self.patterns@)),
        ensures
            scope_fns(*final(scope)) == scope_fns(*old(scope)).push(clobbers_fn(models(self.patterns@))),
            scope_is_plain(*old(scope)) ==> scope_is_plain(*final(scope)),
    {
        let ps = &self.patterns;
        let n = ps.len();
        let mut code: Vec<String> = Vec::new();
        let mut i: usize = 0;
        while i < n
            invariant
                i <= n,
                n == ps@.len(),
                ps == &self.patterns,
                all_ok(models(ps@)),
                views(code@) == clobbers_body(models(ps@).take(i as int)),
            decreases n - i,
        {
            assert(pattern_ok(models(ps@)[i as int]));
            self.clobber_block_lines(&ps[i], &mut code);
            assert(models(ps@).take(i + 1).drop_last() =~= models(ps@).take(i as int));
            i = i + 1;
        }
        assert(models(ps@).take(n as int) =~= models(ps@));
        push_str_line(&mut code, "Vec::new()");
        let f = query_function("overwrittes", "Vec<Reg>", &code);
        push_function(scope, f);
    }
}

} // verus!

verus! {

impl CodeEmitter {
    /// Generates the lowering code for all patterns: the dispatcher, one
    /// function per function key in order of first appearance, the temporary
    /// requirements and the clobbered registers.
    pub fn gen(&self, target: AstTarget) -> (r: String)
        requires
            all_ok(models(self.patterns@)),
        ensures
            r@ == generated(models(self.patterns@)),
    {
        let ps = &self.patterns;
        let mut scope = new_scope();
        let names = mnemonics(ps, false);
        let ghost nv = views(names@);
        let mut disp: Vec<String> = Vec::new();
        push_str_line(&mut disp, "match node.get_opcode() {");
        let ghost head = views(disp@);
        let n = names.len();
        let mut i: usize = 0;
        while i < n
            invariant
                i <= n,
                n == names@.len(),
                nv == views(names@),
                views(disp@) == head + nv.take(i as int).map_values(|m: Seq<char>| dispatch_arm(m)),
            decreases n - i,
        {
            let m = names[i].as_str();
            let key = name_string(&names[i], true);
            let mut l = String::from_str("  DagOpCode::");
            l.append(m);
            l.append(" => compile_");
            l.append(key.as_str());
            l.append("(asm, node, module),");
            let ghost before = views(disp@);
            disp.push(l);
            assert(views(disp@) =~= before.push(l@));
            assert(nv.take(i + 1) =~= nv.take(i as int).push(nv[i as int]));
            assert(nv.take(i + 1).map_values(|m: Seq<char>| dispatch_arm(m)) =~= nv.take(
                i as int,
            ).map_values(|m: Seq<char>| dispatch_arm(m)).push(l@));
            i = i + 1;
        }
        assert(nv.take(n as int) =~= nv);
        push_str_line(&mut disp, "  unimplemented => todo!(\"{:?}\", node),");
        push_str_line(&mut disp, "}");
        assert(views(disp@) =~= dispatcher_body(models(ps@)));
        let d = compile_function("compile", &disp);
        push_function(&mut scope, d);
        let keys = mnemonics(ps, true);
        let ghost kv = views(keys@);
        let nk = keys.len();
        let mut j: usize = 0;
        while j < nk
            invariant
                j <= nk,
                nk == keys@.len(),
                kv == views(keys@),
                kv == first_seen(models(ps@), true),
                ps == &self.patterns,
                all_ok(models(ps@)),
                scope_is_plain(scope),
                scope_fns(scope) == seq![dispatcher_fn(models(ps@))] + kv.take(j as int).map_values(
                    |m: Seq<char>| mnemonic_fn(models(ps@), m),
                ),
            decreases nk - j,
        {
            let m = keys[j].as_str();
            let mut body = mnemonic_lines(target, ps, m);
            push_str_line(
                &mut body,
                "todo!(\"not yet compilable variant: {} ({})\", node, node.get_ty())",
            );
            let mut fname = String::from_str("compile_");
            fname.append(m);
            let f = compile_function(fname.as_str(), &body);
            let ghost before = scope_fns(scope);
            push_function(&mut scope, f);
            assert(fn_parts(f) == mnemonic_fn(models(ps@), kv[j as int]));
            assert(kv.take(j + 1) =~= kv.take(j as int).push(kv[j as int]));
            assert(kv.take(j + 1).map_values(|m: Seq<char>| mnemonic_fn(models(ps@), m)) =~= kv.take(
                j as int,
            ).map_values(|m: Seq<char>| mnemonic_fn(models(ps@), m)).push(fn_parts(f)));
            assert(scope_fns(scope) =~= seq![dispatcher_fn(models(ps@))] + kv.take(j + 1).map_values(
                |m: Seq<char>| mnemonic_fn(models(ps@), m),
            ));
            j = j + 1;
        }
        assert(kv.take(nk as int) =~= kv);
        self.gen_tmps(&mut scope, target);
        self.gen_overwrittes(&mut scope, target);
        assert(scope_fns(scope) =~= emitted_fns(models(ps@)));
        let code = render(&scope);
        let mut out = String::from_str("#[allow(warnings)]\n");
        out.append(code.as_str());
        out
    }
}

} // verus!

verus! {

proof fn lemma_body_prefix(ps: Seq<PatternModel>, k: int, m: Seq<char>)
    requires
        0 <= k <= ps.len(),
    ensures
        mnemonic_body(ps.take(k), m).len() <= mnemonic_body(ps, m).len(),
        mnemonic_body(ps, m).subrange(0, mnemonic_body(ps.take(k), m).len() as int)
            == mnemonic_body(ps.take(k), m),
    decreases ps.len() - k,
{
    if k == ps.len() {
        assert(ps.take(k) =~= ps);
        assert(mnemonic_body(ps, m).subrange(0, mnemonic_body(ps, m).len() as int) =~= mnemonic_body(
            ps,
            m,
        ));
    } else {
        lemma_body_prefix(ps, k + 1, m);
        let a = mnemonic_body(ps.take(k), m);
        let b = mnemonic_body(ps.take(k + 1), m);
        let c = mnemonic_body(ps, m);
        assert(ps.take(k + 1).drop_last() =~= ps.take(k));
        assert(b.subrange(0, a.len() as int) =~= a);
        assert(c.subrange(0, a.len() as int) =~= b.subrange(0, a.len() as int));
    }
}

/// First-match order: in the function of a mnemonic, the block of a pattern
/// stands at the offset that the blocks of the patterns before it take, and
/// of two patterns for the same mnemonic the earlier one's block comes first,
/// whole, so its guards are tried first.
pub proof fn lemma_first_match_order(ps: Seq<PatternModel>, i: int, j: int)
    requires
        0 <= i < j < ps.len(),
        ps[i].variant.mnemonic == ps[j].variant.mnemonic,
    ensures
        ({
            let m = fn_key(ps[i].variant.mnemonic);
            let body = mnemonic_body(ps, m);
            let a = mnemonic_body(ps.take(i), m).len() as int;
            let b = mnemonic_body(ps.take(j), m).len() as int;
            &&& a + pattern_block(ps[i]).len() <= b
            &&& b + pattern_block(ps[j]).len() <= body.len()
            &&& body.subrange(a, a + pattern_block(ps[i]).len()) == pattern_block(ps[i])
            &&& body.subrange(b, b + pattern_block(ps[j]).len()) == pattern_block(ps[j])
        }),
{
    let m = fn_key(ps[i].variant.mnemonic);
    let body = mnemonic_body(ps, m);
    let bi = pattern_block(ps[i]);
    let bj = pattern_block(ps[j]);
    let pi = mnemonic_body(ps.take(i), m);
    let pj = mnemonic_body(ps.take(j), m);
    let qi = mnemonic_body(ps.take(i + 1), m);
    let qj = mnemonic_body(ps.take(j + 1), m);
    assert(ps.take(i + 1).drop_last() =~= ps.take(i));
    assert(ps.take(j + 1).drop_last() =~= ps.take(j));
    assert(qi == pi + bi);
    assert(qj == pj + bj);
    lemma_body_prefix(ps, i + 1, m);
    lemma_body_prefix(ps, j, m);
    lemma_body_prefix(ps, j + 1, m);
    lemma_body_prefix(ps.take(j), i + 1, m);
    assert(ps.take(j).take(i + 1) =~= ps.take(i + 1));
    assert(body.subrange(pi.len() as int, (pi.len() + bi.len()) as int) =~= qi.subrange(
        pi.len() as int,
        (pi.len() + bi.len()) as int,
    ));
    assert(qi.subrange(pi.len() as int, (pi.len() + bi.len()) as int) =~= bi);
    assert(body.subrange(pj.len() as int, (pj.len() + bj.len()) as int) =~= qj.subrange(
        pj.len() as int,
        (pj.len() + bj.len()) as int,
    ));
    assert(qj.subrange(pj.len() as int, (pj.len() + bj.len()) as int) =~= bj);
}

} // verus!

verus! {

proof fn lemma_first_seen_members(ps: Seq<PatternModel>, keyed: bool)
    ensures
        forall|a: int, b: int|
            0 <= a < b < first_seen(ps, keyed).len() ==> first_seen(ps, keyed)[a] != first_seen(ps, keyed)[b],
        forall|m: Seq<char>|
            first_seen(ps, keyed).contains(m) <==> exists|i: int|
                0 <= i < ps.len() && name_of((#[trigger] ps[i]), keyed) == m,
    decreases ps.len(),
{
    if ps.len() > 0 {
        let q = ps.drop_last();
        lemma_first_seen_members(q, keyed);
        let seen = first_seen(q, keyed);
        let x = name_of(ps.last(), keyed);
        if seen.contains(x) {
            assert(first_seen(ps, keyed) == seen);
        } else {
            assert(first_seen(ps, keyed) == seen.push(x));
            assert(first_seen(ps, keyed)[seen.len() as int] == x);
        }
        assert(first_seen(ps, keyed).contains(x));
        assert forall|m: Seq<char>|
            first_seen(ps, keyed).contains(m) <==> exists|i: int|
                0 <= i < ps.len() && name_of((#[trigger] ps[i]), keyed) == m by {
            if first_seen(ps, keyed).contains(m) {
                let idx = choose|idx: int|
                    0 <= idx < first_seen(ps, keyed).len() && first_seen(ps, keyed)[idx] == m;
                if seen.contains(m) {
                    let i = choose|i: int| 0 <= i < q.len() && name_of((#[trigger] q[i]), keyed) == m;
                    assert(ps[i] == q[i]);
                } else {
                    if seen.contains(x) {
                        assert(first_seen(ps, keyed)[idx] == seen[idx]);
                        assert(false);
                    } else {
                        if idx < seen.len() {
                            assert(first_seen(ps, keyed)[idx] == seen[idx]);
                            assert(false);
                        }
                        assert(m == x);
                    }
                    assert(name_of(ps[ps.len() - 1], keyed) == m);
                }
            }
            if exists|i: int| 0 <= i < ps.len() && name_of((#[trigger] ps[i]), keyed) == m {
                let i = choose|i: int| 0 <= i < ps.len() && name_of((#[trigger] ps[i]), keyed) == m;
                if i < ps.len() - 1 {
                    assert(q[i] == ps[i]);
                    assert(seen.contains(m));
                    let idx = choose|idx: int| 0 <= idx < seen.len() && seen[idx] == m;
                    if seen.contains(x) {
                    } else {
                        assert(first_seen(ps, keyed)[idx] == m);
                    }
                }
            }
        }
    }
}

proof fn lemma_first_seen_prefix(ps: Seq<PatternModel>, keyed: bool, k: int)
    requires
        0 <= k <= ps.len(),
    ensures
        first_seen(ps.take(k), keyed).len() <= first_seen(ps, keyed).len(),
        first_seen(ps, keyed).subrange(0, first_seen(ps.take(k), keyed).len() as int) == first_seen(ps.take(k), keyed),
    decreases ps.len() - k,
{
    if k == ps.len() {
        assert(ps.take(k) =~= ps);
        assert(first_seen(ps, keyed).subrange(0, first_seen(ps, keyed).len() as int) =~= first_seen(ps, keyed));
    } else {
        lemma_first_seen_prefix(ps, keyed, k + 1);
        let a = first_seen(ps.take(k), keyed);
        let b = first_seen(ps.take(k + 1), keyed);
        assert(ps.take(k + 1).drop_last() =~= ps.take(k));
        assert(b.subrange(0, a.len() as int) =~= a);
        assert(first_seen(ps, keyed).subrange(0, a.len() as int) =~= b.subrange(0, a.len() as int));
    }
}

/// Grouping keeps the order of first appearance, for the dispatcher's arms
/// (by mnemonic) and for the functions (by function key, when `keyed`): those
/// of the first `k` patterns come first, in the same order, whatever follows;
/// each mnemonic or key appears once; and exactly the patterns' own appear.
pub proof fn lemma_first_seen_order(ps: Seq<PatternModel>, keyed: bool, k: int)
    requires
        0 <= k <= ps.len(),
    ensures
        first_seen(ps.take(k), keyed).len() <= first_seen(ps, keyed).len(),
        first_seen(ps, keyed).subrange(0, first_seen(ps.take(k), keyed).len() as int) == first_seen(ps.take(k), keyed),
        forall|a: int, b: int|
            0 <= a < b < first_seen(ps, keyed).len() ==> first_seen(ps, keyed)[a] != first_seen(ps, keyed)[b],
        forall|m: Seq<char>|
            first_seen(ps, keyed).contains(m) <==> exists|i: int|
                0 <= i < ps.len() && name_of((#[trigger] ps[i]), keyed) == m,
{
    lemma_first_seen_prefix(ps, keyed, k);
    lemma_first_seen_members(ps, keyed);
}

/// The generated text is a function of the input text alone: the same input
/// gives byte-identical output on every run.
pub proof fn lemma_generation_deterministic(a: Seq<char>, b: Seq<char>)
    requires
        a == b,
    ensures
        crate::builder::file_spec(a) == crate::builder::file_spec(b),
        crate::builder::file_spec(a) is Ok ==> generated(crate::builder::file_spec(a)->Ok_0.patterns)
            == generated(crate::builder::file_spec(b)->Ok_0.patterns),
{
}

} // verus!

verus! {

/// How many constraints a variant declares.
pub open spec fn constraint_count(v: VariantModel) -> nat {
    (if v.ls is Some { 1nat } else { 0nat }) + (if v.rs is Some { 1nat } else { 0nat }) + (if v.op3 is Some {
        1nat
    } else {
        0nat
    }) + (if v.out is Some { 1nat } else { 0nat }) + (if v.ty is Some { 1nat } else { 0nat })
}

/// Patterns with pairwise different function keys and nothing to report to the
/// allocator: no temporaries, clobbers or hook, and no left or right operand
/// constraint (such a constraint reports the operand's scratch slot).
pub open spec fn single_plain(ps: Seq<PatternModel>) -> bool {
    &&& forall|i: int, j: int|
        0 <= i < j < ps.len() ==> name_of((#[trigger] ps[i]), true) != name_of((#[trigger] ps[j]), true)
    &&& forall|i: int|
        0 <= i < ps.len() ==> {
            &&& (#[trigger] ps[i]).maps.len() == 0
            &&& ps[i].clobbers.len() == 0
            &&& ps[i].hook is None
            &&& ps[i].variant.ls is None
            &&& ps[i].variant.rs is None
        }
}

proof fn lemma_body_absent(ps: Seq<PatternModel>, m: Seq<char>)
    requires
        forall|i: int| 0 <= i < ps.len() ==> name_of((#[trigger] ps[i]), true) != m,
    ensures
        mnemonic_body(ps, m) == Seq::<Seq<char>>::empty(),
    decreases ps.len(),
{
    if ps.len() > 0 {
        let q = ps.drop_last();
        assert forall|i: int| 0 <= i < q.len() implies name_of((#[trigger] q[i]), true) != m by {
            assert(q[i] == ps[i]);
        }
        lemma_body_absent(q, m);
        assert(name_of(ps[ps.len() - 1], true) != m);
        assert(mnemonic_body(ps, m) =~= Seq::<Seq<char>>::empty());
    }
}

proof fn lemma_single_plain(ps: Seq<PatternModel>)
    requires
        single_plain(ps),
    ensures
        first_seen(ps, true) == ps.map_values(|p: PatternModel| name_of(p, true)),
        forall|k: int|
            0 <= k < ps.len() ==> mnemonic_body(ps, name_of((#[trigger] ps[k]), true))
                == pattern_block(ps[k]),
        tmps_body(ps) == Seq::<Seq<char>>::empty(),
        clobbers_body(ps) == Seq::<Seq<char>>::empty(),
    decreases ps.len(),
{
    if ps.len() > 0 {
        let q = ps.drop_last();
        let last = ps.last();
        assert(single_plain(q)) by {
            assert forall|i: int, j: int|
                0 <= i < j < q.len() implies name_of((#[trigger] q[i]), true) != name_of((#[trigger] q[
                j]), true) by {
                assert(q[i] == ps[i] && q[j] == ps[j]);
            }
            assert forall|i: int| 0 <= i < q.len() implies {
                &&& (#[trigger] q[i]).maps.len() == 0
                &&& q[i].clobbers.len() == 0
                &&& q[i].hook is None
                &&& q[i].variant.ls is None
                &&& q[i].variant.rs is None
            } by {
                assert(q[i] == ps[i]);
            }
        }
        lemma_single_plain(q);
        let x = name_of(last, true);
        assert forall|i: int| 0 <= i < q.len() implies name_of((#[trigger] q[i]), true) != x by {
            assert(q[i] == ps[i]);
            assert(name_of(ps[i], true) != name_of(ps[ps.len() - 1], true));
        }
        assert(!first_seen(q, true).contains(x)) by {
            if first_seen(q, true).contains(x) {
                let idx = choose|idx: int| 0 <= idx < first_seen(q, true).len() && first_seen(q, true)[idx] == x;
                assert(q.map_values(|p: PatternModel| name_of(p, true))[idx] == name_of(q[idx], true));
            }
        }
        assert(first_seen(ps, true) =~= ps.map_values(|p: PatternModel| name_of(p, true)));
        lemma_body_absent(q, x);
        assert forall|k: int| 0 <= k < ps.len() implies mnemonic_body(
            ps,
            name_of((#[trigger] ps[k]), true),
        ) == pattern_block(ps[k]) by {
            if k < ps.len() - 1 {
                assert(q[k] == ps[k]);
                assert(name_of(ps[k], true) != x);
                assert(mnemonic_body(ps, name_of(ps[k], true)) =~= mnemonic_body(
                    q,
                    name_of(q[k], true),
                ));
            } else {
                assert(mnemonic_body(ps, x) =~= pattern_block(last));
            }
        }
        assert(!needs_tmps(last));
        assert(tmps_body(ps) =~= Seq::<Seq<char>>::empty());
        assert(clobbers_body(ps) =~= Seq::<Seq<char>>::empty());
    }
}

/// With one pattern per function key and nothing to report to the allocator, the
/// output holds the dispatcher, then one function per pattern, in input order,
/// holding that pattern's guard nest alone, no deeper than the constraints it
/// declares, and the temporary and clobber functions fall through to empty.
pub proof fn lemma_round_trip(ps: Seq<PatternModel>)
    requires
        single_plain(ps),
    ensures
        emitted_fns(ps).len() == ps.len() + 3,
        forall|k: int|
            0 <= k < ps.len() ==> emitted_fns(ps)[k + 1] == (
                "compile_"@ + name_of((#[trigger] ps[k]), true),
                Some("pub"@),
                compile_args(),
                Option::<Seq<char>>::None,
                pattern_block(ps[k]).push(no_match()),
            ),
        forall|k: int|
            0 <= k < ps.len() ==> guards((#[trigger] ps[k]).variant).len() <= constraint_count(
                ps[k].variant,
            ),
        emitted_fns(ps)[ps.len() as int + 1].4 == seq!["Vec::new()"@],
        emitted_fns(ps)[ps.len() as int + 2].4 == seq!["Vec::new()"@],
{
    lemma_single_plain(ps);
    let mid = first_seen(ps, true).map_values(|m: Seq<char>| mnemonic_fn(ps, m));
    assert(mid.len() == ps.len());
    assert forall|k: int| 0 <= k < ps.len() implies emitted_fns(ps)[k + 1] == (
        "compile_"@ + name_of((#[trigger] ps[k]), true),
        Some("pub"@),
        compile_args(),
        Option::<Seq<char>>::None,
        pattern_block(ps[k]).push(no_match()),
    ) by {
        assert(emitted_fns(ps)[k + 1] == mid[k]);
        assert(first_seen(ps, true)[k] == name_of(ps[k], true));
    }
    assert forall|k: int| 0 <= k < ps.len() implies guards((#[trigger] ps[k]).variant).len()
        <= constraint_count(ps[k].variant) by {
        let v = ps[k].variant;
        assert(crate::cond::operand_guard(v.ls, "0"@).len() <= (if v.ls is Some { 1nat } else { 0nat }));
        assert(crate::cond::operand_guard(v.rs, "1"@).len() <= (if v.rs is Some { 1nat } else { 0nat }));
        assert(crate::cond::operand_guard(v.op3, "2"@).len() <= (if v.op3 is Some { 1nat } else { 0nat }));
        assert(crate::cond::output_guard(v.out).len() <= (if v.out is Some { 1nat } else { 0nat }));
        assert(crate::cond::ty_guard(v.ty).len() <= (if v.ty is Some { 1nat } else { 0nat }));
    }
    assert(emitted_fns(ps)[ps.len() as int + 1] == tmps_fn(ps));
    assert(emitted_fns(ps)[ps.len() as int + 2] == clobbers_fn(ps));
    assert(tmps_fn(ps).4 =~= seq!["Vec::new()"@]);
    assert(clobbers_fn(ps).4 =~= seq!["Vec::new()"@]);
}

} // verus!
