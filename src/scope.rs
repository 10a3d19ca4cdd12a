//! The output document, assembled with the `codegen` crate's `Scope` and
//! `Function` builders. Each function is modelled by its name, visibility,
//! arguments, return type and body lines.

use vstd::prelude::*;
use codegen::{Function, Scope};

verus! {

#[verifier::external_type_specification]
#[verifier::external_body]
pub struct ExFunction(codegen::Function);

#[verifier::external_type_specification]
#[verifier::external_body]
pub struct ExScope(codegen::Scope);

/// What a function under construction holds: name, visibility, arguments
/// (name and type), return type and body lines.
pub uninterp spec fn fn_parts(f: Function) -> (
    Seq<char>,
    Option<Seq<char>>,
    Seq<(Seq<char>, Seq<char>)>,
    Option<Seq<char>>,
    Seq<Seq<char>>,
);

/// The functions a scope holds, in the order they were pushed.
pub uninterp spec fn scope_fns(s: Scope) -> Seq<
    (Seq<char>, Option<Seq<char>>, Seq<(Seq<char>, Seq<char>)>, Option<Seq<char>>, Seq<Seq<char>>),
>;

/// The text that a scope holding these functions formats to.
pub uninterp spec fn scope_text(
    fns: Seq<
        (
            Seq<char>,
            Option<Seq<char>>,
            Seq<(Seq<char>, Seq<char>)>,
            Option<Seq<char>>,
            Seq<Seq<char>>,
        ),
    >,
) -> Seq<char>;

/// Whether a function holds only what `new_function` and the setters below
/// put in it: a name, a visibility, arguments, a return type and a body of
/// lines, with no docs, lint, attributes, ABI, `async`, generics, `self`
/// argument or bounds.
pub uninterp spec fn fn_is_plain(f: Function) -> bool;

/// Whether a scope holds nothing but plain functions: no docs, imports or
/// other items.
pub uninterp spec fn scope_is_plain(s: Scope) -> bool;

/// Relies on `codegen::Function::new`: a function with the given name, no
/// visibility, arguments or return type, and an empty body.
#[verifier::external_body]
pub(crate) fn new_function(name: &str) -> (f: Function)
    ensures
        fn_parts(f).0 == name@,
        fn_parts(f).1 == Option::<Seq<char>>::None,
        fn_parts(f).2 == Seq::<(Seq<char>, Seq<char>)>::empty(),
        fn_parts(f).3 == Option::<Seq<char>>::None,
        fn_parts(f).4 == Seq::<Seq<char>>::empty(),
        fn_is_plain(f),
{
    Function::new(name)
}

/// Relies on `codegen::Function::vis`: sets the visibility, nothing else.
#[verifier::external_body]
pub(crate) fn set_vis(f: &mut Function, vis: &str)
    ensures
        fn_parts(*final(f)).0 == fn_parts(*old(f)).0,
        fn_parts(*final(f)).1 == Some(vis@),
        fn_parts(*final(f)).2 == fn_parts(*old(f)).2,
        fn_parts(*final(f)).3 == fn_parts(*old(f)).3,
        fn_parts(*final(f)).4 == fn_parts(*old(f)).4,
        fn_is_plain(*old(f)) ==> fn_is_plain(*final(f)),
{
    f.vis(vis);
}

/// Relies on `codegen::Function::arg`: appends one argument, nothing else.
#[verifier::external_body]
pub(crate) fn add_arg(f: &mut Function, name: &str, ty: &str)
    ensures
        fn_parts(*final(f)).0 == fn_parts(*old(f)).0,
        fn_parts(*final(f)).1 == fn_parts(*old(f)).1,
        fn_parts(*final(f)).2 == fn_parts(*old(f)).2.push((name@, ty@)),
        fn_parts(*final(f)).3 == fn_parts(*old(f)).3,
        fn_parts(*final(f)).4 == fn_parts(*old(f)).4,
        fn_is_plain(*old(f)) ==> fn_is_plain(*final(f)),
{
    f.arg(name, ty);
}

/// Relies on `codegen::Function::ret`: sets the return type, nothing else.
#[verifier::external_body]
pub(crate) fn set_ret(f: &mut Function, ty: &str)
    ensures
        fn_parts(*final(f)).0 == fn_parts(*old(f)).0,
        fn_parts(*final(f)).1 == fn_parts(*old(f)).1,
        fn_parts(*final(f)).2 == fn_parts(*old(f)).2,
        fn_parts(*final(f)).3 == Some(ty@),
        fn_parts(*final(f)).4 == fn_parts(*old(f)).4,
        fn_is_plain(*old(f)) ==> fn_is_plain(*final(f)),
{
    f.ret(ty);
}

/// Relies on `codegen::Function::line`: appends one body line, nothing else.
#[verifier::external_body]
pub(crate) fn add_line(f: &mut Function, line: &str)
    ensures
        fn_parts(*final(f)).0 == fn_parts(*old(f)).0,
        fn_parts(*final(f)).1 == fn_parts(*old(f)).1,
        fn_parts(*final(f)).2 == fn_parts(*old(f)).2,
        fn_parts(*final(f)).3 == fn_parts(*old(f)).3,
        fn_parts(*final(f)).4 == fn_parts(*old(f)).4.push(line@),
        fn_is_plain(*old(f)) ==> fn_is_plain(*final(f)),
{
    f.line(line);
}

/// Relies on `codegen::Scope::new`: a scope with nothing in it.
#[verifier::external_body]
pub(crate) fn new_scope() -> (s: Scope)
    ensures
        scope_fns(s).len() == 0,
        scope_is_plain(s),
{
    Scope::new()
}

/// Relies on `codegen::Scope::push_fn`: appends the function as the scope's
/// last item.
#[verifier::external_body]
pub(crate) fn push_function(s: &mut Scope, f: Function)
    ensures
        scope_fns(*final(s)) == scope_fns(*old(s)).push(fn_parts(f)),
        scope_is_plain(*old(s)) && fn_is_plain(f) ==> scope_is_plain(*final(s)),
{
    s.push_fn(f);
}

/// Relies on `codegen::Scope::to_string`: formats the scope. For a scope of
/// plain functions, each with a body, the text depends on those functions
/// alone.
#[verifier::external_body]
pub(crate) fn render(s: &Scope) -> (r: String)
    requires
        scope_is_plain(*s),
    ensures
        r@ == scope_text(scope_fns(*s)),
{
    s.to_string()
}

} // verus!
