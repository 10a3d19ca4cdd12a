//! The pattern grammar: splits DSL text into one parse-tree node per pattern.
//!
//! The DSL is line oriented. Blank lines and lines starting with `//` are
//! ignored; every line is read without the blanks around it.
//!
//! ```text
//! asm_parser x86_intel
//! def Pat<Add gr, imm -> gr> (int) {
//!     map %t0, gr
//!     clobber rax, rdx
//!     hook after_add
//!     asm -> mov $out, $2;
//!     rust -> if cond {
//!     asm -> add $out, $1
//!     rust -> }
//! }
//! ```
//!
//! A pattern header is `def Pat<` mnemonic, its operand kinds, an optional
//! `-> ` output kind, `>`, an optional type annotation and `{`. Inside a
//! pattern each line is an assembly template (`asm ->`, any `;` is
//! dropped), a literal line (`rust ->`), a temporary (`map`), a clobber list
//! (`clobber`), a hook (`hook`) or the closing `}`.

use vstd::prelude::*;
use vstd::string::*;
use crate::text::{
    char_vec, find_char, find_char_from, starts_with, starts_with_str, substring,
    trim, trim_str, str_eq, replace_all, replace_str,
};

verus! {

/// The kinds of line a pattern block holds.
#[derive(Debug, Clone, Copy, PartialEq, Eq, Structural)]
pub enum Rule {
    AsmInstruction,
    RustInstruction,
    TempMap,
    Hook,
    Clobbers,
}

/// One line of a pattern block: its line number, kind and text.
#[derive(Debug, Clone)]
pub struct BlockItem {
    pub line: usize,
    pub rule: Rule,
    pub text: String,
}

/// The parse-tree node of one pattern: the header's parts, each possibly
/// empty, and the block's lines in order.
#[derive(Debug, Clone)]
pub struct PatternNode {
    pub line: usize,
    pub mnemonic: String,
    pub inputs: String,
    pub output: String,
    pub ty: String,
    pub block: Vec<BlockItem>,
}

/// The parse tree of a file.
#[derive(Debug, Clone)]
pub struct FileNode {
    pub patterns: Vec<PatternNode>,
    pub asm_parser: Option<String>,
}

/// Why DSL text was rejected, with the line (counted from 1) at fault.
#[derive(Debug, Clone, Copy, PartialEq, Eq, Structural)]
pub enum ParseError {
    /// A line that the grammar does not allow where it stands.
    Syntax { line: usize },
    /// A pattern that the text does not close.
    Unclosed { line: usize },
    /// A mnemonic that is not an identifier.
    InvalidMnemonic { line: usize },
    /// An operand or output kind outside the recognised set.
    InvalidOpVariant { line: usize },
    /// More than three operand kinds.
    TooManyOperands { line: usize },
    /// A malformed type annotation.
    InvalidType { line: usize },
    /// A template without an instruction name or with an unclosed `[`.
    InvalidTemplate { line: usize },
    /// A temporary not named `%t` and a number, or not of class gr, fp or mem.
    InvalidTemporary { line: usize },
    /// An empty register name in a clobber list.
    InvalidClobber { line: usize },
}

/// A block line as text.
pub struct ItemModel {
    pub line: nat,
    pub rule: Rule,
    pub text: Seq<char>,
}

/// A pattern node as text.
pub struct NodeModel {
    pub line: nat,
    pub mnemonic: Seq<char>,
    pub inputs: Seq<char>,
    pub output: Seq<char>,
    pub ty: Seq<char>,
    pub block: Seq<ItemModel>,
}

/// A parse tree as text.
pub struct TreeModel {
    pub patterns: Seq<NodeModel>,
    pub asm_parser: Option<Seq<char>>,
}

impl View for BlockItem {
    type V = ItemModel;

    open spec fn view(&self) -> ItemModel {
        ItemModel { line: self.line as nat, rule: self.rule, text: self.text@ }
    }
}

impl View for PatternNode {
    type V = NodeModel;

    open spec fn view(&self) -> NodeModel {
        NodeModel {
            line: self.line as nat,
            mnemonic: self.mnemonic@,
            inputs: self.inputs@,
            output: self.output@,
            ty: self.ty@,
            block: self.block@.map_values(|b: BlockItem| b@),
        }
    }
}

/// The texts of optional strings.
pub open spec fn opt_view(o: Option<String>) -> Option<Seq<char>> {
    match o {
        Some(s) => Some(s@),
        None => None,
    }
}

impl View for FileNode {
    type V = TreeModel;

    open spec fn view(&self) -> TreeModel {
        TreeModel {
            patterns: self.patterns@.map_values(|p: PatternNode| p@),
            asm_parser: opt_view(self.asm_parser),
        }
    }
}

} // verus!

verus! {

/// Whether the `>` at `k` closes a header (it is not the tip of `->`).
pub open spec fn is_close_at(t: Seq<char>, k: int) -> bool {
    t[k] == '>' && (k == 0 || t[k - 1] != '-')
}

/// The first header-closing `>` at or after `i`, or the length.
pub open spec fn find_close(t: Seq<char>, i: int) -> int
    decreases t.len() - i,
{
    if 0 <= i < t.len() && !is_close_at(t, i) {
        find_close(t, i + 1)
    } else {
        i
    }
}

/// The first `->` at or after `i`, or the length.
pub open spec fn find_arrow(t: Seq<char>, i: int) -> int
    decreases t.len() - i,
{
    if i < 0 || i + 1 >= t.len() {
        t.len() as int
    } else if t[i] == '-' && t[i + 1] == '>' {
        i
    } else {
        find_arrow(t, i + 1)
    }
}

/// The node that a header line opens, if `t` is one.
pub open spec fn header_model(t: Seq<char>, line: nat) -> Option<NodeModel> {
    if !(starts_with(t, "def Pat<"@) && t.len() >= 9 && t[t.len() - 1] == '{') {
        None
    } else {
        let inner = t.subrange(8, t.len() - 1);
        let j = find_close(inner, 0);
        if j >= inner.len() {
            None
        } else {
            let head = inner.subrange(0, j);
            let sp = find_char(head, 0, ' ');
            let rest = head.subrange(sp, head.len() as int);
            let ar = find_arrow(rest, 0);
            Some(
                NodeModel {
                    line,
                    mnemonic: head.subrange(0, sp),
                    inputs: trim(rest.subrange(0, ar)),
                    output: if ar < rest.len() {
                        trim(rest.subrange(ar + 2, rest.len() as int))
                    } else {
                        Seq::empty()
                    },
                    ty: trim(inner.subrange(j + 1, inner.len() as int)),
                    block: Seq::empty(),
                },
            )
        }
    }
}

/// A template's text: the rest of the line without any `;`.
pub open spec fn strip_semicolon(x: Seq<char>) -> Seq<char> {
    replace_all(x, ";"@, Seq::empty())
}

/// The block line that `t` is, if it is one.
pub open spec fn item_model(t: Seq<char>, line: nat) -> Option<ItemModel> {
    if starts_with(t, "asm ->"@) {
        Some(
            ItemModel {
                line,
                rule: Rule::AsmInstruction,
                text: strip_semicolon(trim(t.subrange(6, t.len() as int))),
            },
        )
    } else if starts_with(t, "rust ->"@) {
        Some(
            ItemModel {
                line,
                rule: Rule::RustInstruction,
                text: trim(t.subrange(7, t.len() as int)),
            },
        )
    } else if starts_with(t, "map "@) {
        Some(ItemModel { line, rule: Rule::TempMap, text: trim(t.subrange(4, t.len() as int)) })
    } else if starts_with(t, "hook "@) {
        Some(ItemModel { line, rule: Rule::Hook, text: trim(t.subrange(5, t.len() as int)) })
    } else if starts_with(t, "clobber "@) {
        Some(ItemModel { line, rule: Rule::Clobbers, text: trim(t.subrange(8, t.len() as int)) })
    } else {
        None
    }
}

/// Where the grammar stands between two lines.
pub struct ParseState {
    pub done: Seq<NodeModel>,
    pub open: Option<NodeModel>,
    pub asm_parser: Option<Seq<char>>,
}

/// Whether a line is ignored.
pub open spec fn is_blank(t: Seq<char>) -> bool {
    t.len() == 0 || starts_with(t, "//"@)
}

/// The effect of one trimmed line `t`, numbered `line`.
pub open spec fn step(st: ParseState, t: Seq<char>, line: nat) -> Result<ParseState, ParseError> {
    if is_blank(t) {
        Ok(st)
    } else {
        match st.open {
            None => if starts_with(t, "asm_parser "@) {
                Ok(
                    ParseState {
                        asm_parser: Some(trim(t.subrange(11, t.len() as int))),
                        ..st
                    },
                )
            } else {
                match header_model(t, line) {
                    Some(n) => Ok(ParseState { open: Some(n), ..st }),
                    None => Err(ParseError::Syntax { line: line as usize }),
                }
            },
            Some(n) => if t == "}"@ {
                Ok(ParseState { done: st.done.push(n), open: None, ..st })
            } else {
                match item_model(t, line) {
                    Some(it) => Ok(
                        ParseState { open: Some(NodeModel { block: n.block.push(it), ..n }), ..st },
                    ),
                    None => Err(ParseError::Syntax { line: line as usize }),
                }
            },
        }
    }
}

/// The end of the line that starts at `i`.
pub open spec fn line_end(s: Seq<char>, i: int) -> int {
    find_char(s, i, '\n')
}

/// The outcome once every line is read.
pub open spec fn finish(st: ParseState) -> Result<TreeModel, ParseError> {
    match st.open {
        Some(n) => Err(ParseError::Unclosed { line: n.line as usize }),
        None => Ok(TreeModel { patterns: st.done, asm_parser: st.asm_parser }),
    }
}

/// The outcome of reading the lines of `s` from index `i` on, the first
/// numbered `line`, from state `st`.
pub open spec fn parse_from(s: Seq<char>, i: int, line: nat, st: ParseState) -> Result<
    TreeModel,
    ParseError,
>
    decreases s.len() + 1 - i,
{
    if i < 0 || i > s.len() {
        finish(st)
    } else {
        let e = line_end(s, i);
        if e < i || e > s.len() {
            finish(st)
        } else {
            match step(st, trim(s.subrange(i, e)), line) {
                Ok(next) => parse_from(s, e + 1, line + 1, next),
                Err(err) => Err(err),
            }
        }
    }
}

/// The parse tree of DSL text, or the first error in it.
pub open spec fn parse_spec(s: Seq<char>) -> Result<TreeModel, ParseError> {
    parse_from(s, 0, 1, ParseState { done: Seq::empty(), open: None, asm_parser: None })
}

/// The parse tree as text, or the error.
pub open spec fn file_result(r: Result<FileNode, ParseError>) -> Result<TreeModel, ParseError> {
    match r {
        Ok(f) => Ok(f@),
        Err(e) => Err(e),
    }
}

} // verus!

verus! {

fn find_close_index(t: &str) -> (r: usize)
    ensures
        r == find_close(t@, 0),
        r <= t@.len(),
{
    let n = t.unicode_len();
    let mut i: usize = 0;
    while i < n && !(t.get_char(i) == '>' && (i == 0 || t.get_char(i - 1) != '-'))
        invariant
            i <= n,
            n == t@.len(),
            find_close(t@, i as int) == find_close(t@, 0),
        decreases n - i,
    {
        i = i + 1;
    }
    i
}

fn find_arrow_index(t: &str) -> (r: usize)
    ensures
        r == find_arrow(t@, 0),
        r == t@.len() || r + 2 <= t@.len(),
{
    let n = t.unicode_len();
    let mut i: usize = 0;
    while n > 0 && i < n - 1
        invariant
            i <= n,
            n == t@.len(),
            find_arrow(t@, i as int) == find_arrow(t@, 0),
        decreases n - i,
    {
        if t.get_char(i) == '-' && t.get_char(i + 1) == '>' {
            return i;
        }
        i = i + 1;
    }
    n
}

fn find_newline(chars: &Vec<char>, from: usize) -> (r: usize)
    requires
        from <= chars@.len(),
    ensures
        r == find_char(chars@, from as int, '\n'),
        from <= r <= chars@.len(),
{
    let n = chars.len();
    let mut i: usize = from;
    while i < n && chars[i] != '\n'
        invariant
            from <= i <= n,
            n == chars@.len(),
            find_char(chars@, i as int, '\n') == find_char(chars@, from as int, '\n'),
        decreases n - i,
    {
        i = i + 1;
    }
    i
}

/// Reads a pattern header line.
pub fn header(t: &str, line: usize) -> (r: Option<PatternNode>)
    ensures
        match r {
            Some(n) => header_model(t@, line as nat) == Some(n@),
            None => header_model(t@, line as nat) is None,
        },
{
    let n = t.unicode_len();
    if !(starts_with_str(t, "def Pat<") && n >= 9 && t.get_char(n - 1) == '{') {
        return None;
    }
    let inner = substring(t, 8, n - 1);
    let m = inner.as_str().unicode_len();
    let j = find_close_index(inner.as_str());
    if j >= m {
        return None;
    }
    let head = substring(inner.as_str(), 0, j);
    let sp = find_char_from(head.as_str(), 0, ' ');
    let rest = substring(head.as_str(), sp, j);
    let k = rest.as_str().unicode_len();
    let ar = find_arrow_index(rest.as_str());
    let before_arrow = substring(rest.as_str(), 0, ar);
    let inputs = trim_str(before_arrow.as_str());
    let output = if ar < k {
        let after = substring(rest.as_str(), ar + 2, k);
        trim_str(after.as_str())
    } else {
        String::new()
    };
    let ty_text = substring(inner.as_str(), j + 1, m);
    let ty = trim_str(ty_text.as_str());
    let mnemonic = substring(head.as_str(), 0, sp);
    let node = PatternNode { line, mnemonic, inputs, output, ty, block: Vec::new() };
    assert(node@.block =~= Seq::<ItemModel>::empty());
    assert(header_model(t@, line as nat) == Some(node@));
    Some(node)
}

/// Reads a line inside a pattern block.
pub fn item(t: &str, line: usize) -> (r: Option<BlockItem>)
    ensures
        match r {
            Some(it) => item_model(t@, line as nat) == Some(it@),
            None => item_model(t@, line as nat) is None,
        },
{
    proof {
        reveal_strlit("asm ->");
        reveal_strlit("rust ->");
        reveal_strlit("map ");
        reveal_strlit("hook ");
        reveal_strlit("clobber ");
    }
    let n = t.unicode_len();
    if starts_with_str(t, "asm ->") {
        let rest = substring(t, 6, n);
        let x = trim_str(rest.as_str());
        proof {
            reveal_strlit("");
            assert(""@ =~= Seq::<char>::empty());
        }
        let text = replace_str(x.as_str(), ";", "");
        Some(BlockItem { line, rule: Rule::AsmInstruction, text })
    } else if starts_with_str(t, "rust ->") {
        let rest = substring(t, 7, n);
        Some(BlockItem { line, rule: Rule::RustInstruction, text: trim_str(rest.as_str()) })
    } else if starts_with_str(t, "map ") {
        let rest = substring(t, 4, n);
        Some(BlockItem { line, rule: Rule::TempMap, text: trim_str(rest.as_str()) })
    } else if starts_with_str(t, "hook ") {
        let rest = substring(t, 5, n);
        Some(BlockItem { line, rule: Rule::Hook, text: trim_str(rest.as_str()) })
    } else if starts_with_str(t, "clobber ") {
        let rest = substring(t, 8, n);
        Some(BlockItem { line, rule: Rule::Clobbers, text: trim_str(rest.as_str()) })
    } else {
        None
    }
}

/// The state of the grammar as text.
pub open spec fn state_model(
    done: Seq<PatternNode>,
    open: Option<PatternNode>,
    asm_parser: Option<String>,
) -> ParseState {
    ParseState {
        done: done.map_values(|p: PatternNode| p@),
        open: match open {
            Some(n) => Some(n@),
            None => None,
        },
        asm_parser: opt_view(asm_parser),
    }
}

/// Reads DSL text into its parse tree.
pub struct CodeParser;

impl CodeParser {
    /// The parse tree of `input`, or the first line the grammar rejects.
    pub fn parse(input: &str) -> (r: Result<FileNode, ParseError>)
        requires
            input@.len() + 2 <= usize::MAX,
        ensures
            file_result(r) == parse_spec(input@),
    {
        proof {
            reveal_strlit("asm_parser ");
        }
        let chars = char_vec(input);
        let n = chars.len();
        let mut done: Vec<PatternNode> = Vec::new();
        let mut open: Option<PatternNode> = None;
        let mut asm_parser: Option<String> = None;
        let mut i: usize = 0;
        let mut line: usize = 1;
        assert(done@.map_values(|p: PatternNode| p@) =~= Seq::<NodeModel>::empty());
        while i <= n
            invariant
                i <= n + 1,
                n == input@.len(),
                chars@ == input@,
                n + 2 <= usize::MAX,
                1 <= line <= i + 1,
                "asm_parser "@.len() == 11,
                parse_from(input@, i as int, line as nat, state_model(done@, open, asm_parser))
                    == parse_spec(input@),
            decreases n + 1 - i,
        {
            let ghost st = state_model(done@, open, asm_parser);
            let e = find_newline(&chars, i);
            let raw = substring(input, i, e);
            let t = trim_str(raw.as_str());
            let ts = t.as_str();
            let k = ts.unicode_len();
            if k == 0 || starts_with_str(ts, "//") {
            } else {
                let cur = open;
                open = None;
                match cur {
                    None => {
                        if starts_with_str(ts, "asm_parser ") {
                            let name = substring(ts, 11, k);
                            asm_parser = Some(trim_str(name.as_str()));
                        } else {
                            match header(ts, line) {
                                Some(nd) => {
                                    open = Some(nd);
                                },
                                None => {
                                    return Err(ParseError::Syntax { line });
                                },
                            }
                        }
                    },
                    Some(nd) => {
                        if str_eq(ts, "}") {
                            let ghost before = done@.map_values(|p: PatternNode| p@);
                            let ghost v = nd@;
                            done.push(nd);
                            assert(done@.map_values(|p: PatternNode| p@) =~= before.push(v));
                        } else {
                            match item(ts, line) {
                                Some(it) => {
                                    let mut nd = nd;
                                    let ghost b = nd@.block;
                                    let ghost iv = it@;
                                    nd.block.push(it);
                                    assert(nd@.block =~= b.push(iv));
                                    open = Some(nd);
                                },
                                None => {
                                    return Err(ParseError::Syntax { line });
                                },
                            }
                        }
                    },
                }
            }
            assert(step(st, t@, line as nat) == Ok::<ParseState, ParseError>(
                state_model(done@, open, asm_parser),
            ));
            i = e + 1;
            line = line + 1;
        }
        match open {
            Some(nd) => Err(ParseError::Unclosed { line: nd.line }),
            None => {
                let f = FileNode { patterns: done, asm_parser };
                assert(file_result(Ok(f)) == finish(state_model(done@, None, asm_parser)));
                Ok(f)
            },
        }
    }
}

} // verus!
