//! The pattern model: what one DSL file describes, once parsed and checked.

use vstd::prelude::*;

verus! {

/// One DSL file: its patterns in input order.
#[derive(Debug, Clone)]
pub struct File {
    pub patterns: Vec<Pattern>,
    /// Name of an external assembly-syntax parser, declared by the file.
    pub asm_parser: Option<String>,
}

/// One rewrite rule.
#[derive(Debug, Clone)]
pub struct Pattern {
    pub variant: Variant,
    pub lines: Vec<AsmLine>,
    /// Temporaries the emitted instructions need.
    pub maps: Vec<TempMap>,
    /// Registers overwritten as a side effect of the emitted instructions.
    pub clobbers: Vec<String>,
    /// Function called after the instructions are emitted.
    pub hook: Option<String>,
}

/// A named temporary (`%t0`) and the register class it is allocated from.
#[derive(Debug, Clone)]
pub struct TempMap {
    pub var: String,
    pub ty: OpVariant,
}

/// A body line: target-language code copied verbatim, or an assembly template.
#[derive(Debug, Clone)]
pub enum AsmLine {
    Rust(String),
    Asm(String),
}

/// The applicability signature of a pattern. Absent fields are unconstrained.
#[derive(Debug, Clone)]
pub struct Variant {
    pub mnemonic: String,
    pub ls: Option<OpVariant>,
    pub rs: Option<OpVariant>,
    pub op3: Option<OpVariant>,
    pub out: Option<OpVariant>,
    pub ty: Option<String>,
}

/// The storage class of an operand. `Any` is present but unconstrained.
#[derive(Debug, Clone, Copy, PartialEq, Eq, Structural)]
pub enum OpVariant {
    Gr,
    Fp,
    Imm,
    Mem,
    Any,
}

/// The instruction set whose operand syntax templates are expanded for.
#[derive(Debug, Clone, Copy, PartialEq, Eq, Structural)]
pub enum AstTarget {
    X86,
}

/// The token that names each operand kind in the DSL.
pub open spec fn kind_token(k: OpVariant) -> Seq<char> {
    match k {
        OpVariant::Gr => "gr"@,
        OpVariant::Fp => "fp"@,
        OpVariant::Imm => "imm"@,
        OpVariant::Mem => "mem"@,
        OpVariant::Any => "any"@,
    }
}

/// The operand kind a DSL token names, if it names one.
pub open spec fn kind_of_token(s: Seq<char>) -> Option<OpVariant> {
    if s == "gr"@ {
        Some(OpVariant::Gr)
    } else if s == "fp"@ {
        Some(OpVariant::Fp)
    } else if s == "imm"@ {
        Some(OpVariant::Imm)
    } else if s == "mem"@ {
        Some(OpVariant::Mem)
    } else if s == "any"@ {
        Some(OpVariant::Any)
    } else {
        None
    }
}

impl OpVariant {
    /// The DSL token of this kind.
    pub fn name(&self) -> (r: &'static str)
        ensures
            r@ == kind_token(*self),
    {
        match self {
            OpVariant::Gr => "gr",
            OpVariant::Fp => "fp",
            OpVariant::Imm => "imm",
            OpVariant::Mem => "mem",
            OpVariant::Any => "any",
        }
    }

    /// Reads an operand-kind token; `None` for anything outside the closed set.
    pub fn from_str(input: &str) -> (r: Option<OpVariant>)
        ensures
            r == kind_of_token(input@),
    {
        if crate::text::str_eq(input, "gr") {
            Some(OpVariant::Gr)
        } else if crate::text::str_eq(input, "fp") {
            Some(OpVariant::Fp)
        } else if crate::text::str_eq(input, "imm") {
            Some(OpVariant::Imm)
        } else if crate::text::str_eq(input, "mem") {
            Some(OpVariant::Mem)
        } else if crate::text::str_eq(input, "any") {
            Some(OpVariant::Any)
        } else {
            None
        }
    }
}

} // verus!

verus! {

/// A variant as text.
pub struct VariantModel {
    pub mnemonic: Seq<char>,
    pub ls: Option<OpVariant>,
    pub rs: Option<OpVariant>,
    pub op3: Option<OpVariant>,
    pub out: Option<OpVariant>,
    pub ty: Option<Seq<char>>,
}

/// A body line as text.
pub enum LineModel {
    Rust(Seq<char>),
    Asm(Seq<char>),
}

/// A pattern as text.
pub struct PatternModel {
    pub variant: VariantModel,
    pub lines: Seq<LineModel>,
    pub maps: Seq<(Seq<char>, OpVariant)>,
    pub clobbers: Seq<Seq<char>>,
    pub hook: Option<Seq<char>>,
}

/// A file as text.
pub struct FileModel {
    pub patterns: Seq<PatternModel>,
    pub asm_parser: Option<Seq<char>>,
}

/// The texts of optional strings.
pub open spec fn opt_text(o: Option<String>) -> Option<Seq<char>> {
    match o {
        Some(s) => Some(s@),
        None => None,
    }
}

impl View for Variant {
    type V = VariantModel;

    open spec fn view(&self) -> VariantModel {
        VariantModel {
            mnemonic: self.mnemonic@,
            ls: self.ls,
            rs: self.rs,
            op3: self.op3,
            out: self.out,
            ty: opt_text(self.ty),
        }
    }
}

impl View for AsmLine {
    type V = LineModel;

    open spec fn view(&self) -> LineModel {
        match self {
            AsmLine::Rust(s) => LineModel::Rust(s@),
            AsmLine::Asm(s) => LineModel::Asm(s@),
        }
    }
}

impl View for TempMap {
    type V = (Seq<char>, OpVariant);

    open spec fn view(&self) -> (Seq<char>, OpVariant) {
        (self.var@, self.ty)
    }
}

impl View for Pattern {
    type V = PatternModel;

    open spec fn view(&self) -> PatternModel {
        PatternModel {
            variant: self.variant@,
            lines: self.lines@.map_values(|l: AsmLine| l@),
            maps: self.maps@.map_values(|m: TempMap| m@),
            clobbers: self.clobbers@.map_values(|c: String| c@),
            hook: opt_text(self.hook),
        }
    }
}

impl View for File {
    type V = FileModel;

    open spec fn view(&self) -> FileModel {
        FileModel {
            patterns: self.patterns@.map_values(|p: Pattern| p@),
            asm_parser: opt_text(self.asm_parser),
        }
    }
}

} // verus!

verus! {

/// The patterns as text.
pub open spec fn models(ps: Seq<Pattern>) -> Seq<PatternModel> {
    ps.map_values(|p: Pattern| p@)
}

} // verus!
