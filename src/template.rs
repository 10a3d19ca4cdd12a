//! Expansion of assembly-template lines into instruction-construction expressions.

use vstd::prelude::*;
use vstd::string::*;
use crate::ast::AstTarget;
use crate::text::{
    all_digits_from, decimal, digits_from, is_white, is_white_char, prefixed, replace_all,
    replace_str, str_eq, substring, to_decimal, views,
};

verus! {

/// Characters that separate template tokens.
pub open spec fn is_sep(c: char) -> bool {
    is_white(c) || c == ','
}

/// Brackets delimit a memory displacement and are tokens of their own.
pub open spec fn is_bracket(c: char) -> bool {
    c == '[' || c == ']'
}

/// End of the word that starts at `i`.
pub open spec fn word_end(s: Seq<char>, i: int) -> int
    decreases s.len() - i,
{
    if 0 <= i < s.len() && !is_sep(s[i]) && !is_bracket(s[i]) {
        word_end(s, i + 1)
    } else {
        i
    }
}

/// The tokens of `s` from index `i` on: words and single brackets.
pub open spec fn tokens_from(s: Seq<char>, i: int) -> Seq<Seq<char>>
    decreases s.len() - i,
{
    if i < 0 || i >= s.len() {
        Seq::empty()
    } else if is_sep(s[i]) {
        tokens_from(s, i + 1)
    } else if is_bracket(s[i]) {
        seq![s.subrange(i, i + 1)] + tokens_from(s, i + 1)
    } else {
        let e = word_end(s, i);
        if e <= i || e > s.len() {
            Seq::empty()
        } else {
            seq![s.subrange(i, e)] + tokens_from(s, e)
        }
    }
}

proof fn lemma_word_end(s: Seq<char>, i: int)
    requires
        0 <= i <= s.len(),
    ensures
        i <= word_end(s, i) <= s.len(),
        i < s.len() && !is_sep(s[i]) && !is_bracket(s[i]) ==> i < word_end(s, i),
    decreases s.len() - i,
{
    if i < s.len() && !is_sep(s[i]) && !is_bracket(s[i]) {
        lemma_word_end(s, i + 1);
    }
}

fn is_word_char(c: char) -> (r: bool)
    ensures
        r == (!is_sep(c) && !is_bracket(c)),
{
    !(is_white_char(c) || c == ',' || c == '[' || c == ']')
}

/// Splits a template line into tokens.
pub fn tokenize(line: &str) -> (r: Vec<String>)
    ensures
        views(r@) == tokens_from(line@, 0),
{
    let n = line.unicode_len();
    let mut out: Vec<String> = Vec::new();
    let mut i: usize = 0;
    while i < n
        invariant
            i <= n,
            n == line@.len(),
            views(out@) + tokens_from(line@, i as int) == tokens_from(line@, 0),
        decreases n - i,
    {
        let ghost s = line@;
        let c = line.get_char(i);
        if is_white_char(c) || c == ',' {
            i = i + 1;
        } else if c == '[' || c == ']' {
            let t = substring(line, i, i + 1);
            let ghost before = views(out@);
            out.push(t);
            assert(views(out@) =~= before.push(t@));
            assert(tokens_from(s, i as int) == seq![t@] + tokens_from(s, i + 1));
            assert(views(out@) + tokens_from(s, i + 1) =~= before + tokens_from(s, i as int));
            i = i + 1;
        } else {
            let mut e: usize = i + 1;
            while e < n && is_word_char(line.get_char(e))
                invariant
                    i < e <= n,
                    n == s.len(),
                    s == line@,
                    word_end(s, e as int) == word_end(s, i as int),
                decreases n - e,
            {
                e = e + 1;
            }
            proof {
                lemma_word_end(s, i as int);
            }
            assert(word_end(s, i as int) == e);
            let t = substring(line, i, e);
            let ghost before = views(out@);
            out.push(t);
            assert(views(out@) =~= before.push(t@));
            assert(tokens_from(s, i as int) == seq![t@] + tokens_from(s, e as int));
            assert(views(out@) + tokens_from(s, e as int) =~= before + tokens_from(s, i as int));
            i = e;
        }
    }
    assert(views(out@) =~= views(out@) + tokens_from(line@, n as int));
    out
}

} // verus!

verus! {

/// Whether `t` names a temporary: `%t` followed by digits.
pub open spec fn is_temp_name(t: Seq<char>) -> bool {
    t.len() > 2 && t[0] == '%' && t[1] == 't' && digits_from(t, 2)
}

/// What a token inside a memory displacement stands for.
pub open spec fn displacement_text(t: Seq<char>) -> Seq<char> {
    if t == "+"@ {
        "MemoryOption::Plus"@
    } else if t == "-"@ {
        "MemoryOption::Minus"@
    } else {
        t
    }
}

/// Tests `is_temp_name(t@)`.
pub fn is_temp(t: &str) -> (r: bool)
    ensures
        r == is_temp_name(t@),
{
    let n = t.unicode_len();
    n > 2 && t.get_char(0) == '%' && t.get_char(1) == 't' && all_digits_from(t, 2)
}

/// Rewrites one token of a memory displacement.
pub fn displacement_part(t: &str) -> (r: String)
    ensures
        r@ == displacement_text(t@),
{
    if str_eq(t, "+") {
        String::from_str("MemoryOption::Plus")
    } else if str_eq(t, "-") {
        String::from_str("MemoryOption::Minus")
    } else {
        String::from_str(t)
    }
}

/// Index of the first `]` token at or after `i`, or the length.
pub open spec fn close_of(t: Seq<Seq<char>>, i: int) -> int
    decreases t.len() - i,
{
    if 0 <= i < t.len() && t[i] != "]"@ {
        close_of(t, i + 1)
    } else {
        i
    }
}

/// The displacement tokens `k..j`, each preceded by `", "`.
pub open spec fn displacement_rest(t: Seq<Seq<char>>, k: int, j: int) -> Seq<char>
    decreases j - k,
{
    if k < j {
        ", "@ + displacement_text(t[k]) + displacement_rest(t, k + 1, j)
    } else {
        Seq::empty()
    }
}

/// The memory operand for a `[` token at `i` and its `]` at `j`: the inner
/// tokens in order, plus and minus written as displacement directions, and
/// a `", "` after the last one.
pub open spec fn displacement_operand(t: Seq<Seq<char>>, i: int, j: int) -> Seq<char> {
    "MemoryDispl::new("@ + (if i + 1 < j {
        displacement_text(t[i + 1]) + displacement_rest(t, i + 2, j) + ", "@
    } else {
        Seq::empty()
    }) + ")"@
}

/// Whether every `[` from token `i` on has a later `]`.
pub open spec fn brackets_closed(t: Seq<Seq<char>>, i: int) -> bool
    decreases t.len() - i,
{
    if i < 0 || i >= t.len() {
        true
    } else if t[i] == "["@ {
        let j = close_of(t, i + 1);
        i < j < t.len() && brackets_closed(t, j + 1)
    } else {
        brackets_closed(t, i + 1)
    }
}

/// The operands that the tokens from `i` on make, a bracketed run counting as one.
pub open spec fn operands_from(t: Seq<Seq<char>>, i: int) -> Seq<Seq<char>>
    decreases t.len() - i,
{
    if i < 0 || i >= t.len() {
        Seq::empty()
    } else if t[i] == "["@ {
        let j = close_of(t, i + 1);
        if i < j < t.len() {
            seq![displacement_operand(t, i, j)] + operands_from(t, j + 1)
        } else {
            Seq::empty()
        }
    } else {
        seq![t[i]] + operands_from(t, i + 1)
    }
}

/// Builds the memory operand for the bracket tokens at `i` and `j`.
fn displacement(tokens: &Vec<String>, i: usize, j: usize) -> (r: String)
    requires
        i < j < tokens@.len(),
    ensures
        r@ == displacement_operand(views(tokens@), i as int, j as int),
{
    let ghost t = views(tokens@);
    let mut s = String::from_str("MemoryDispl::new(");
    if i + 1 < j {
        let first = displacement_part(tokens[i + 1].as_str());
        s.append(first.as_str());
        let mut k: usize = i + 2;
        while k < j
            invariant
                i + 2 <= k <= j,
                j < tokens@.len(),
                t == views(tokens@),
                s@ + displacement_rest(t, k as int, j as int) == "MemoryDispl::new("@
                    + displacement_text(t[i + 1]) + displacement_rest(t, i + 2, j as int),
            decreases j - k,
        {
            let part = displacement_part(tokens[k].as_str());
            let ghost old_s = s@;
            s.append(", ");
            s.append(part.as_str());
            assert(old_s + displacement_rest(t, k as int, j as int) =~= s@ + displacement_rest(
                t,
                k + 1,
                j as int,
            ));
            k = k + 1;
        }
        assert(s@ =~= s@ + displacement_rest(t, k as int, j as int));
        s.append(", ");
    }
    s.append(")");
    assert(s@ =~= displacement_operand(t, i as int, j as int));
    s
}

/// Appends each operand the tokens make, as `", " operand`, and returns how
/// many. Tokens are copied as they are; placeholders are left for
/// `construct_assembly_build` to rewrite.
pub fn x86_specifc_arg(builder: &mut String, tokens: &Vec<String>) -> (r: usize)
    requires
        brackets_closed(views(tokens@), 0),
    ensures
        final(builder)@ == old(builder)@ + prefixed(", "@, operands_from(views(tokens@), 0)),
        r == operands_from(views(tokens@), 0).len(),
{
    let ghost t = views(tokens@);
    let ghost all = operands_from(t, 0);
    let n = tokens.len();
    let mut amount: usize = 0;
    let mut i: usize = 0;
    while i < n
        invariant
            i <= n,
            n == tokens@.len(),
            t == views(tokens@),
            all == operands_from(t, 0),
            brackets_closed(t, i as int),
            old(builder)@ + prefixed(", "@, all) == builder@ + prefixed(", "@, operands_from(t, i as int)),
            amount + operands_from(t, i as int).len() == all.len(),
            amount <= i,
        decreases n - i,
    {
        let ghost rest = operands_from(t, i as int);
        let ghost before = builder@;
        if str_eq(tokens[i].as_str(), "[") {
            let mut j: usize = i + 1;
            while j < n && !str_eq(tokens[j].as_str(), "]")
                invariant
                    i < j <= n,
                    n == tokens@.len(),
                    t == views(tokens@),
                    close_of(t, j as int) == close_of(t, i + 1),
                decreases n - j,
            {
                j = j + 1;
            }
            assert(close_of(t, j as int) == j);
            let m = displacement(tokens, i, j);
            builder.append(", ");
            builder.append(m.as_str());
            let ghost tail = operands_from(t, j + 1);
            assert(rest == seq![m@] + tail);
            assert(rest.drop_first() =~= tail);
            assert(prefixed(", "@, rest) == ", "@ + m@ + prefixed(", "@, tail));
            assert(before + prefixed(", "@, rest) =~= builder@ + prefixed(", "@, tail));
            i = j + 1;
        } else {
            builder.append(", ");
            builder.append(tokens[i].as_str());
            let ghost m = t[i as int];
            let ghost tail = operands_from(t, i + 1);
            assert(rest == seq![m] + tail);
            assert(rest.drop_first() =~= tail);
            assert(prefixed(", "@, rest) == ", "@ + m + prefixed(", "@, tail));
            assert(before + prefixed(", "@, rest) =~= builder@ + prefixed(", "@, tail));
            i = i + 1;
        }
        amount = amount + 1;
    }
    assert(builder@ =~= builder@ + prefixed(", "@, operands_from(t, i as int)));
    amount
}

/// Hands the operand tokens to the operand syntax of `target`.
pub fn target_specific_argument_parsing(
    target: AstTarget,
    builder: &mut String,
    tokens: &Vec<String>,
) -> (r: usize)
    requires
        brackets_closed(views(tokens@), 0),
    ensures
        final(builder)@ == old(builder)@ + prefixed(", "@, operands_from(views(tokens@), 0)),
        r == operands_from(views(tokens@), 0).len(),
{
    match target {
        AstTarget::X86 => x86_specifc_arg(builder, tokens),
    }
}

} // verus!

verus! {

/// What `char::to_uppercase` yields for a character.
pub uninterp spec fn upper_of(c: char) -> Seq<char>;

/// Relies on `char::to_uppercase`: the upper-case mapping of one character,
/// which depends on that character alone.
#[verifier::external_body]
fn char_to_upper(c: char) -> (r: String)
    ensures
        r@ == upper_of(c),
{
    c.to_uppercase().collect::<String>()
}

/// `s` with its first character upper-cased.
pub open spec fn upper_first(s: Seq<char>) -> Seq<char> {
    if s.len() == 0 {
        Seq::empty()
    } else {
        upper_of(s[0]) + s.drop_first()
    }
}

/// Capitalises the first character, as instruction names are written.
pub fn first_to_uppercase(s: &str) -> (r: String)
    ensures
        r@ == upper_first(s@),
{
    let n = s.unicode_len();
    if n == 0 {
        String::new()
    } else {
        let mut r = char_to_upper(s.get_char(0));
        r.append(s.substring_char(1, n));
        assert(s@.subrange(1, n as int) =~= s@.drop_first());
        r
    }
}

/// The instruction-construction expression for an instruction name and its
/// operands: the constructor is picked by the number of operands.
pub open spec fn instruction_text(mnemonic: Seq<char>, ops: Seq<Seq<char>>) -> Seq<char> {
    "Asm::with"@ + decimal(ops.len()) + "("@ + substitute(
        "Mnemonic::"@ + mnemonic + prefixed(", "@, ops) + ")"@,
    )
}

/// The placeholders rewritten wherever they occur, in this order: `$out` to
/// the output operand, `$1`, `$2`, `$3` to the materialised operands, and
/// `%t0`, `%t1`, `%t2` to the temporaries.
pub open spec fn substitute(t: Seq<char>) -> Seq<char> {
    let a = replace_all(t, "$out"@, "node.get_out().into()"@);
    let b = replace_all(a, "$1"@, "ls"@);
    let c = replace_all(b, "$2"@, "rs"@);
    let d = replace_all(c, "$3"@, "op3"@);
    let e = replace_all(d, "%t0"@, "Operand::Tmp(0)"@);
    let f = replace_all(e, "%t1"@, "Operand::Tmp(1)"@);
    replace_all(f, "%t2"@, "Operand::Tmp(2)"@)
}

/// Rewrites the placeholders of `substitute`.
pub fn substitute_placeholders(t: &str) -> (r: String)
    ensures
        r@ == substitute(t@),
{
    let a = replace_str(t, "$out", "node.get_out().into()");
    let b = replace_str(a.as_str(), "$1", "ls");
    let c = replace_str(b.as_str(), "$2", "rs");
    let d = replace_str(c.as_str(), "$3", "op3");
    let e = replace_str(d.as_str(), "%t0", "Operand::Tmp(0)");
    let f = replace_str(e.as_str(), "%t1", "Operand::Tmp(1)");
    replace_str(f.as_str(), "%t2", "Operand::Tmp(2)")
}

/// Whether a template line can be expanded: it has an instruction name and
/// every memory displacement it opens is closed.
pub open spec fn template_ok(line: Seq<char>) -> bool {
    let t = tokens_from(line, 0);
    t.len() > 0 && brackets_closed(t.drop_first(), 0)
}

/// The expression a template line expands to.
pub open spec fn template_text(line: Seq<char>) -> Seq<char> {
    let t = tokens_from(line, 0);
    instruction_text(upper_first(t[0]), operands_from(t.drop_first(), 0))
}

/// Tests `template_ok`.
pub fn check_template(line: &str) -> (r: bool)
    ensures
        r == template_ok(line@),
{
    let tokens = tokenize(line);
    if tokens.len() == 0 {
        return false;
    }
    let mut rest = tokens;
    let _m = rest.remove(0);
    proof {
        assert(views(rest@) =~= tokens_from(line@, 0).drop_first());
    }
    brackets_ok(&rest)
}

/// Tests `brackets_closed(views(tokens@), 0)`.
pub fn brackets_ok(tokens: &Vec<String>) -> (r: bool)
    ensures
        r == brackets_closed(views(tokens@), 0),
{
    let ghost t = views(tokens@);
    let n = tokens.len();
    let mut i: usize = 0;
    while i < n
        invariant
            i <= n,
            n == tokens@.len(),
            t == views(tokens@),
            brackets_closed(t, 0) == brackets_closed(t, i as int),
        decreases n - i,
    {
        if str_eq(tokens[i].as_str(), "[") {
            let mut j: usize = i + 1;
            while j < n && !str_eq(tokens[j].as_str(), "]")
                invariant
                    i < j <= n,
                    n == tokens@.len(),
                    t == views(tokens@),
                    close_of(t, j as int) == close_of(t, i + 1),
                decreases n - j,
            {
                j = j + 1;
            }
            if j >= n {
                return false;
            }
            i = j + 1;
        } else {
            i = i + 1;
        }
    }
    true
}

/// Builds the expression for an instruction name (already capitalised) and its
/// operand tokens.
pub fn build_instruction(target: AstTarget, mnemonic: &str, operands: &Vec<String>) -> (r: String)
    requires
        brackets_closed(views(operands@), 0),
    ensures
        r@ == instruction_text(mnemonic@, operands_from(views(operands@), 0)),
{
    let mut args = String::from_str("Mnemonic::");
    args.append(mnemonic);
    let num_args = target_specific_argument_parsing(target, &mut args, operands);
    args.append(")");
    let args = substitute_placeholders(args.as_str());
    let mut builder = String::from_str("Asm::with");
    let count = to_decimal(num_args);
    builder.append(count.as_str());
    builder.append("(");
    builder.append(args.as_str());
    assert(builder@ =~= instruction_text(mnemonic@, operands_from(views(operands@), 0)));
    builder
}

/// Expands one template line: the first token names the instruction, the rest
/// are its operands.
pub fn construct_assembly_build(target: AstTarget, line: &str) -> (r: String)
    requires
        template_ok(line@),
    ensures
        r@ == template_text(line@),
{
    let mut tokens = tokenize(line);
    let first = tokens.remove(0);
    proof {
        assert(views(tokens@) =~= tokens_from(line@, 0).drop_first());
    }
    let mnemonic = first_to_uppercase(first.as_str());
    build_instruction(target, mnemonic.as_str(), &tokens)
}

} // verus!
