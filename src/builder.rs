//! The tree builder: turns parse-tree nodes into checked patterns.

use vstd::prelude::*;
use vstd::string::*;
use crate::ast::{
    models, kind_of_token, AsmLine, File, FileModel, LineModel, OpVariant, Pattern, PatternModel, TempMap,
    Variant, VariantModel,
};
use crate::cond::{check_ty, ty_ok};
use crate::emit::{all_ok, is_mnemonic_char, line_ok, mnemonic_ok, pattern_ok, temp_ok};
use crate::grammar::{
    parse_spec, BlockItem, CodeParser, ItemModel, NodeModel, ParseError, PatternNode, Rule,
    TreeModel,
};
use crate::template::{check_template, is_temp, is_temp_name, template_ok};
use crate::text::{split_commas, split_str, views};

verus! {

/// `t` without parentheses and spaces.
pub open spec fn strip_decor(t: Seq<char>) -> Seq<char>
    decreases t.len(),
{
    if t.len() == 0 {
        Seq::empty()
    } else {
        let r = strip_decor(t.drop_last());
        let c = t.last();
        if c == '(' || c == ')' || c == ' ' {
            r
        } else {
            r.push(c)
        }
    }
}

/// The operand-kind tokens of a header.
pub open spec fn input_pieces(m: NodeModel) -> Seq<Seq<char>> {
    if m.inputs.len() == 0 {
        Seq::empty()
    } else {
        split_commas(m.inputs)
    }
}

/// Whether every token names an operand kind.
pub open spec fn all_kinds(p: Seq<Seq<char>>) -> bool {
    forall|i: int| 0 <= i < p.len() ==> (#[trigger] kind_of_token(p[i])) is Some
}

/// The kind the `i`-th token names; none past the last token.
pub open spec fn kind_at(p: Seq<Seq<char>>, i: int) -> Option<OpVariant> {
    if 0 <= i < p.len() {
        kind_of_token(p[i])
    } else {
        None
    }
}

/// The variant a header describes: the first token binds the left operand, the
/// second the right, the third the third; or the first fault found, checked in
/// the order mnemonic, operand count, operand kinds, output kind, type.
pub open spec fn header_result(m: NodeModel) -> Result<VariantModel, ParseError> {
    let line = m.line as usize;
    let p = input_pieces(m);
    let ty = strip_decor(m.ty);
    if !mnemonic_ok(m.mnemonic) {
        Err(ParseError::InvalidMnemonic { line })
    } else if p.len() > 3 {
        Err(ParseError::TooManyOperands { line })
    } else if !all_kinds(p) {
        Err(ParseError::InvalidOpVariant { line })
    } else if m.output.len() > 0 && kind_of_token(m.output) is None {
        Err(ParseError::InvalidOpVariant { line })
    } else if m.ty.len() > 0 && !ty_ok(ty) {
        Err(ParseError::InvalidType { line })
    } else {
        Ok(
            VariantModel {
                mnemonic: m.mnemonic,
                ls: kind_at(p, 0),
                rs: kind_at(p, 1),
                op3: kind_at(p, 2),
                out: if m.output.len() > 0 {
                    kind_of_token(m.output)
                } else {
                    None
                },
                ty: if m.ty.len() > 0 {
                    Some(ty)
                } else {
                    None
                },
            },
        )
    }
}

/// Whether a kind is a valid register class for a temporary.
pub open spec fn temp_class(k: Option<OpVariant>) -> bool {
    k == Some(OpVariant::Gr) || k == Some(OpVariant::Fp) || k == Some(OpVariant::Mem)
}

/// Whether every piece of a clobber list is non-empty.
pub open spec fn all_named(p: Seq<Seq<char>>) -> bool {
    forall|i: int| 0 <= i < p.len() ==> (#[trigger] p[i]).len() > 0
}

/// The pattern after one more block line, taking temporaries, clobbers and
/// the hook; or the fault in that line. Body lines are left for `apply_line`.
pub open spec fn apply_meta(acc: PatternModel, it: ItemModel) -> Result<PatternModel, ParseError> {
    let line = it.line as usize;
    match it.rule {
        Rule::AsmInstruction => Ok(acc),
        Rule::RustInstruction => Ok(acc),
        Rule::TempMap => {
            let p = split_commas(it.text);
            if p.len() == 2 && is_temp_name(p[0]) && temp_class(kind_of_token(p[1])) {
                Ok(PatternModel { maps: acc.maps.push((p[0], kind_of_token(p[1])->0)), ..acc })
            } else {
                Err(ParseError::InvalidTemporary { line })
            }
        },
        Rule::Hook => Ok(PatternModel { hook: Some(it.text), ..acc }),
        Rule::Clobbers => {
            let p = split_commas(it.text);
            if all_named(p) {
                Ok(PatternModel { clobbers: acc.clobbers + p, ..acc })
            } else {
                Err(ParseError::InvalidClobber { line })
            }
        },
    }
}

/// The pattern after the temporaries, clobbers and hook of all the block
/// lines in order, or the first fault among them.
pub open spec fn meta_from(acc: PatternModel, items: Seq<ItemModel>) -> Result<
    PatternModel,
    ParseError,
>
    decreases items.len(),
{
    if items.len() == 0 {
        Ok(acc)
    } else {
        match meta_from(acc, items.drop_last()) {
            Ok(a) => apply_meta(a, items.last()),
            Err(e) => Err(e),
        }
    }
}

/// The pattern after one more block line, taking templates and literal
/// lines into its body; or the fault in that line.
pub open spec fn apply_line(acc: PatternModel, it: ItemModel) -> Result<PatternModel, ParseError> {
    match it.rule {
        Rule::AsmInstruction => if template_ok(it.text) {
            Ok(PatternModel { lines: acc.lines.push(LineModel::Asm(it.text)), ..acc })
        } else {
            Err(ParseError::InvalidTemplate { line: it.line as usize })
        },
        Rule::RustInstruction => Ok(
            PatternModel { lines: acc.lines.push(LineModel::Rust(it.text)), ..acc },
        ),
        _ => Ok(acc),
    }
}

/// The pattern after the body lines of all the block lines in order, or the
/// first faulty template.
pub open spec fn lines_from(acc: PatternModel, items: Seq<ItemModel>) -> Result<
    PatternModel,
    ParseError,
>
    decreases items.len(),
{
    if items.len() == 0 {
        Ok(acc)
    } else {
        match lines_from(acc, items.drop_last()) {
            Ok(a) => apply_line(a, items.last()),
            Err(e) => Err(e),
        }
    }
}

/// The pattern a node describes, or the first fault in it.
pub open spec fn build_result(m: NodeModel) -> Result<PatternModel, ParseError> {
    match header_result(m) {
        Ok(v) => match meta_from(
            PatternModel {
                variant: v,
                lines: Seq::empty(),
                maps: Seq::empty(),
                clobbers: Seq::empty(),
                hook: None,
            },
            m.block,
        ) {
            Ok(p) => lines_from(p, m.block),
            Err(e) => Err(e),
        },
        Err(e) => Err(e),
    }
}

/// A result as text.
pub open spec fn pattern_result(r: Result<Pattern, ParseError>) -> Result<PatternModel, ParseError> {
    match r {
        Ok(p) => Ok(p@),
        Err(e) => Err(e),
    }
}

/// Builds `strip_decor(t@)`.
pub fn strip_decoration(t: &str) -> (r: String)
    ensures
        r@ == strip_decor(t@),
{
    let n = t.unicode_len();
    let mut out = String::new();
    let mut i: usize = 0;
    while i < n
        invariant
            i <= n,
            n == t@.len(),
            out@ == strip_decor(t@.take(i as int)),
        decreases n - i,
    {
        let c = t.get_char(i);
        assert(t@.take(i + 1).drop_last() =~= t@.take(i as int));
        if !(c == '(' || c == ')' || c == ' ') {
            let ghost before = out@;
            out.append(t.substring_char(i, i + 1));
            assert(out@ =~= before.push(c));
        }
        i = i + 1;
    }
    assert(t@.take(n as int) =~= t@);
    out
}

fn check_mnemonic(m: &str) -> (r: bool)
    ensures
        r == mnemonic_ok(m@),
{
    let n = m.unicode_len();
    if n == 0 {
        return false;
    }
    let c0 = m.get_char(0);
    if !(('a' <= c0 && c0 <= 'z') || ('A' <= c0 && c0 <= 'Z') || ('0' <= c0 && c0 <= '9') || c0
        == '_') {
        return false;
    }
    let mut i: usize = 0;
    while i < n
        invariant
            i <= n,
            n == m@.len(),
            forall|k: int| 0 <= k < i ==> is_mnemonic_char(#[trigger] m@[k]),
        decreases n - i,
    {
        let c = m.get_char(i);
        if !(('a' <= c && c <= 'z') || ('A' <= c && c <= 'Z') || ('0' <= c && c <= '9') || c
            == '_' || c == '(' || c == ')') {
            return false;
        }
        i = i + 1;
    }
    true
}

} // verus!

verus! {

/// The block lines as text.
pub open spec fn items_view(block: Seq<BlockItem>) -> Seq<ItemModel> {
    block.map_values(|b: BlockItem| b@)
}

proof fn lemma_meta_err(acc: PatternModel, items: Seq<ItemModel>, k: int)
    requires
        0 <= k <= items.len(),
        meta_from(acc, items.take(k)) is Err,
    ensures
        meta_from(acc, items) == meta_from(acc, items.take(k)),
    decreases items.len() - k,
{
    if k < items.len() {
        assert(items.take(k + 1).drop_last() =~= items.take(k));
        lemma_meta_err(acc, items, k + 1);
    } else {
        assert(items.take(k) =~= items);
    }
}

proof fn lemma_lines_err(acc: PatternModel, items: Seq<ItemModel>, k: int)
    requires
        0 <= k <= items.len(),
        lines_from(acc, items.take(k)) is Err,
    ensures
        lines_from(acc, items) == lines_from(acc, items.take(k)),
    decreases items.len() - k,
{
    if k < items.len() {
        assert(items.take(k + 1).drop_last() =~= items.take(k));
        lemma_lines_err(acc, items, k + 1);
    } else {
        assert(items.take(k) =~= items);
    }
}

fn all_nonempty(p: &Vec<String>) -> (r: bool)
    ensures
        r == all_named(views(p@)),
{
    let m = p.len();
    let mut j: usize = 0;
    while j < m
        invariant
            j <= m,
            m == p@.len(),
            forall|x: int| 0 <= x < j ==> (#[trigger] p@[x]@).len() > 0,
        decreases m - j,
    {
        if p[j].as_str().unicode_len() == 0 {
            assert(views(p@)[j as int].len() == 0);
            return false;
        }
        j = j + 1;
    }
    assert forall|x: int| 0 <= x < views(p@).len() implies (#[trigger] views(p@)[x]).len() > 0 by {
        assert(p@[x]@.len() > 0);
    }
    true
}

/// Applies the temporaries, clobbers and hook of the block lines to the
/// pattern, in order. Stops at the first faulty line.
fn process_meta(pattern: &mut Pattern, block: &Vec<BlockItem>) -> (r: Result<(), ParseError>)
    requires
        pattern_ok(old(pattern)@),
    ensures
        match r {
            Ok(()) => meta_from(old(pattern)@, items_view(block@)) == Ok::<
                PatternModel,
                ParseError,
            >(final(pattern)@) && pattern_ok(final(pattern)@),
            Err(e) => meta_from(old(pattern)@, items_view(block@)) == Err::<
                PatternModel,
                ParseError,
            >(e),
        },
{
    let ghost start = pattern@;
    let ghost items = items_view(block@);
    let n = block.len();
    let mut i: usize = 0;
    assert(items.take(0) =~= Seq::<ItemModel>::empty());
    while i < n
        invariant
            i <= n,
            n == block@.len(),
            items == items_view(block@),
            start == old(pattern)@,
            meta_from(start, items.take(i as int)) == Ok::<PatternModel, ParseError>(pattern@),
            pattern_ok(pattern@),
        decreases n - i,
    {
        let it = &block[i];
        let line = it.line;
        let ghost acc = pattern@;
        assert(items.take(i + 1).drop_last() =~= items.take(i as int));
        assert(items.take(i + 1).last() == it@);
        match it.rule {
            Rule::AsmInstruction => {},
            Rule::RustInstruction => {},
            Rule::TempMap => {
                let p = split_str(it.text.as_str());
                let ok = p.len() == 2 && is_temp(p[0].as_str());
                if !ok {
                    assert(meta_from(start, items.take(i + 1)) == Err::<PatternModel, ParseError>(
                        ParseError::InvalidTemporary { line },
                    ));
                    proof {
                        lemma_meta_err(start, items, i + 1);
                    }
                    return Err(ParseError::InvalidTemporary { line });
                }
                let k = OpVariant::from_str(p[1].as_str());
                match k {
                    Some(k) => {
                        if k == OpVariant::Imm || k == OpVariant::Any {
                            assert(meta_from(start, items.take(i + 1)) == Err::<
                                PatternModel,
                                ParseError,
                            >(ParseError::InvalidTemporary { line }));
                            proof {
                                lemma_meta_err(start, items, i + 1);
                            }
                            return Err(ParseError::InvalidTemporary { line });
                        }
                        let m = TempMap { var: p[0].clone(), ty: k };
                        assert(temp_ok(m@));
                        pattern.maps.push(m);
                        assert(pattern@.maps =~= acc.maps.push((p@[0]@, k)));
                        assert(temp_ok(pattern@.maps[pattern@.maps.len() - 1]));
                    },
                    None => {
                        assert(meta_from(start, items.take(i + 1)) == Err::<
                            PatternModel,
                            ParseError,
                        >(ParseError::InvalidTemporary { line }));
                        proof {
                            lemma_meta_err(start, items, i + 1);
                        }
                        return Err(ParseError::InvalidTemporary { line });
                    },
                }
            },
            Rule::Hook => {
                pattern.hook = Some(it.text.clone());
            },
            Rule::Clobbers => {
                let mut p = split_str(it.text.as_str());
                if !all_nonempty(&p) {
                    assert(meta_from(start, items.take(i + 1)) == Err::<PatternModel, ParseError>(
                        ParseError::InvalidClobber { line },
                    ));
                    proof {
                        lemma_meta_err(start, items, i + 1);
                    }
                    return Err(ParseError::InvalidClobber { line });
                }
                let ghost pv = views(p@);
                let ghost before = pattern@.clobbers;
                pattern.clobbers.append(&mut p);
                assert(pattern@.clobbers =~= before + pv);
            },
        }
        assert(meta_from(start, items.take(i + 1)) == Ok::<PatternModel, ParseError>(pattern@));
        i = i + 1;
    }
    assert(items.take(n as int) =~= items);
    Ok(())
}

} // verus!

verus! {

/// Appends the body lines of the block to the pattern, in order: templates
/// and literal lines; other block lines are left to `process`. Stops at the
/// first template that cannot be expanded.
pub fn process_block(pattern: &mut Pattern, block: &Vec<BlockItem>) -> (r: Result<(), ParseError>)
    ensures
        match r {
            Ok(()) => lines_from(old(pattern)@, items_view(block@)) == Ok::<
                PatternModel,
                ParseError,
            >(final(pattern)@),
            Err(e) => lines_from(old(pattern)@, items_view(block@)) == Err::<
                PatternModel,
                ParseError,
            >(e),
        },
        final(pattern)@.variant == old(pattern)@.variant,
        final(pattern)@.maps == old(pattern)@.maps,
        final(pattern)@.clobbers == old(pattern)@.clobbers,
        final(pattern)@.hook == old(pattern)@.hook,
        pattern_ok(old(pattern)@) ==> pattern_ok(final(pattern)@),
{
    let ghost start = pattern@;
    let ghost items = items_view(block@);
    let n = block.len();
    let mut i: usize = 0;
    assert(items.take(0) =~= Seq::<ItemModel>::empty());
    while i < n
        invariant
            i <= n,
            n == block@.len(),
            items == items_view(block@),
            start == old(pattern)@,
            lines_from(start, items.take(i as int)) == Ok::<PatternModel, ParseError>(pattern@),
            pattern@.variant == start.variant,
            pattern@.maps == start.maps,
            pattern@.clobbers == start.clobbers,
            pattern@.hook == start.hook,
            pattern_ok(start) ==> pattern_ok(pattern@),
        decreases n - i,
    {
        let it = &block[i];
        let ghost acc = pattern@;
        assert(items.take(i + 1).drop_last() =~= items.take(i as int));
        assert(items.take(i + 1).last() == it@);
        match it.rule {
            Rule::AsmInstruction => {
                if !check_template(it.text.as_str()) {
                    assert(lines_from(start, items.take(i + 1)) == Err::<PatternModel, ParseError>(
                        ParseError::InvalidTemplate { line: it.line },
                    ));
                    proof {
                        lemma_lines_err(start, items, i + 1);
                    }
                    return Err(ParseError::InvalidTemplate { line: it.line });
                }
                pattern.lines.push(AsmLine::Asm(it.text.clone()));
                assert(pattern@.lines =~= acc.lines.push(LineModel::Asm(it.text@)));
                assert(line_ok(pattern@.lines[pattern@.lines.len() - 1]));
            },
            Rule::RustInstruction => {
                pattern.lines.push(AsmLine::Rust(it.text.clone()));
                assert(pattern@.lines =~= acc.lines.push(LineModel::Rust(it.text@)));
                assert(line_ok(pattern@.lines[pattern@.lines.len() - 1]));
            },
            _ => {},
        }
        assert(lines_from(start, items.take(i + 1)) == Ok::<PatternModel, ParseError>(pattern@));
        i = i + 1;
    }
    assert(items.take(n as int) =~= items);
    Ok(())
}

/// Builds the pattern a parse-tree node describes, or reports its first fault.
pub fn process(node: &PatternNode) -> (r: Result<Pattern, ParseError>)
    ensures
        pattern_result(r) == build_result(node@),
        r is Ok ==> pattern_ok(r->Ok_0@),
{
    let line = node.line;
    let ghost m = node@;
    if !check_mnemonic(node.mnemonic.as_str()) {
        return Err(ParseError::InvalidMnemonic { line });
    }
    let pieces: Vec<String> = if node.inputs.as_str().unicode_len() == 0 {
        let v: Vec<String> = Vec::new();
        assert(views(v@) =~= Seq::<Seq<char>>::empty());
        v
    } else {
        split_str(node.inputs.as_str())
    };
    let ghost p = views(pieces@);
    assert(p == input_pieces(m));
    let count = pieces.len();
    if count > 3 {
        return Err(ParseError::TooManyOperands { line });
    }
    let mut kinds: Vec<OpVariant> = Vec::new();
    let mut i: usize = 0;
    while i < count
        invariant
            i <= count,
            count == pieces@.len(),
            count <= 3,
            p == views(pieces@),
            m == node@,
            line == node.line,
            p == input_pieces(m),
            mnemonic_ok(m.mnemonic),
            kinds@.len() == i,
            forall|j: int| 0 <= j < i ==> kind_of_token(p[j]) == Some(#[trigger] kinds@[j]),
        decreases count - i,
    {
        match OpVariant::from_str(pieces[i].as_str()) {
            Some(k) => {
                kinds.push(k);
            },
            None => {
                assert(kind_of_token(p[i as int]) is None);
                assert(!all_kinds(p));
                return Err(ParseError::InvalidOpVariant { line });
            },
        }
        i = i + 1;
    }
    assert(all_kinds(p)) by {
        assert forall|j: int| 0 <= j < p.len() implies (#[trigger] kind_of_token(p[j])) is Some by {
            assert(kind_of_token(p[j]) == Some(kinds@[j]));
        }
    }
    let ls = if count > 0 {
        Some(kinds[0])
    } else {
        None
    };
    let rs = if count > 1 {
        Some(kinds[1])
    } else {
        None
    };
    let op3 = if count > 2 {
        Some(kinds[2])
    } else {
        None
    };
    let out = if node.output.as_str().unicode_len() > 0 {
        match OpVariant::from_str(node.output.as_str()) {
            Some(k) => Some(k),
            None => {
                return Err(ParseError::InvalidOpVariant { line });
            },
        }
    } else {
        None
    };
    let ty = if node.ty.as_str().unicode_len() > 0 {
        let stripped = strip_decoration(node.ty.as_str());
        if !check_ty(stripped.as_str()) {
            return Err(ParseError::InvalidType { line });
        }
        Some(stripped)
    } else {
        None
    };
    let variant = Variant { mnemonic: node.mnemonic.clone(), ls, rs, op3, out, ty };
    let mut pattern = Pattern {
        variant,
        lines: Vec::new(),
        maps: Vec::new(),
        clobbers: Vec::new(),
        hook: None,
    };
    assert(header_result(m) == Ok::<VariantModel, ParseError>(pattern@.variant));
    assert(pattern@.lines =~= Seq::<LineModel>::empty());
    assert(pattern@.maps =~= Seq::<(Seq<char>, OpVariant)>::empty());
    assert(pattern@.clobbers =~= Seq::<Seq<char>>::empty());
    match process_meta(&mut pattern, &node.block) {
        Ok(()) => {},
        Err(e) => {
            return Err(e);
        },
    }
    match process_block(&mut pattern, &node.block) {
        Ok(()) => Ok(pattern),
        Err(e) => Err(e),
    }
}

/// Every node built, in order, or the first fault.
pub open spec fn build_all(ns: Seq<NodeModel>) -> Result<Seq<PatternModel>, ParseError>
    decreases ns.len(),
{
    if ns.len() == 0 {
        Ok(Seq::empty())
    } else {
        match build_all(ns.drop_last()) {
            Ok(ps) => match build_result(ns.last()) {
                Ok(p) => Ok(ps.push(p)),
                Err(e) => Err(e),
            },
            Err(e) => Err(e),
        }
    }
}

/// The patterns DSL text describes, or the first fault: grammar faults first,
/// then the faults of each pattern in order.
pub open spec fn file_spec(s: Seq<char>) -> Result<FileModel, ParseError> {
    match parse_spec(s) {
        Ok(t) => match build_all(t.patterns) {
            Ok(ps) => Ok(FileModel { patterns: ps, asm_parser: t.asm_parser }),
            Err(e) => Err(e),
        },
        Err(e) => Err(e),
    }
}

/// A parsed file as text.
pub open spec fn parsed(r: Result<File, ParseError>) -> Result<FileModel, ParseError> {
    match r {
        Ok(f) => Ok(f@),
        Err(e) => Err(e),
    }
}

proof fn lemma_build_err(ns: Seq<NodeModel>, k: int)
    requires
        0 <= k <= ns.len(),
        build_all(ns.take(k)) is Err,
    ensures
        build_all(ns) == build_all(ns.take(k)),
    decreases ns.len() - k,
{
    if k < ns.len() {
        assert(ns.take(k + 1).drop_last() =~= ns.take(k));
        lemma_build_err(ns, k + 1);
    } else {
        assert(ns.take(k) =~= ns);
    }
}

/// Parses DSL text and builds its patterns.
pub fn parse(input: &str) -> (r: Result<File, ParseError>)
    requires
        input@.len() + 2 <= usize::MAX,
    ensures
        parsed(r) == file_spec(input@),
        r is Ok ==> all_ok(models(r->Ok_0.patterns@)),
{
    let tree = match CodeParser::parse(input) {
        Ok(t) => t,
        Err(e) => {
            return Err(e);
        },
    };
    let ghost ns = tree@.patterns;
    let n = tree.patterns.len();
    let mut patterns: Vec<Pattern> = Vec::new();
    let mut i: usize = 0;
    assert(ns.take(0) =~= Seq::<NodeModel>::empty());
    assert(patterns@.map_values(|p: Pattern| p@) =~= Seq::<PatternModel>::empty());
    while i < n
        invariant
            i <= n,
            n == tree.patterns@.len(),
            ns == tree@.patterns,
            parse_spec(input@) == Ok::<TreeModel, ParseError>(tree@),
            build_all(ns.take(i as int)) == Ok::<Seq<PatternModel>, ParseError>(
                patterns@.map_values(|p: Pattern| p@),
            ),
            all_ok(models(patterns@)),
            patterns@.len() == i,
        decreases n - i,
    {
        assert(ns.take(i + 1).drop_last() =~= ns.take(i as int));
        assert(ns.take(i + 1).last() == tree.patterns@[i as int]@);
        match process(&tree.patterns[i]) {
            Ok(p) => {
                let ghost before = patterns@.map_values(|p: Pattern| p@);
                let ghost pv = p@;
                patterns.push(p);
                assert(patterns@.map_values(|p: Pattern| p@) =~= before.push(pv));
                assert(pattern_ok(models(patterns@)[i as int]));
            },
            Err(e) => {
                assert(build_all(ns.take(i + 1)) == Err::<Seq<PatternModel>, ParseError>(e));
                proof {
                    lemma_build_err(ns, i + 1);
                }
                return Err(e);
            },
        }
        i = i + 1;
    }
    assert(ns.take(n as int) =~= ns);
    Ok(File { patterns, asm_parser: tree.asm_parser })
}

} // verus!
