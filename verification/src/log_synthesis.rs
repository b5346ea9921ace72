//! The `@log{msg: "...", when: ..., level: ...}` directive, up to the
//! typing of its message: the level tag, the arguments that the message's
//! `format` call receives, and the rule that a message logged on entry
//! only names parameters.

use vstd::prelude::*;

use crate::ast::{sexpr_view, sexprs_view, spec_synthetic, Expr, SExpr, Span, Spanned, SpecExpr, SpecSpanned};
use crate::const_eval::TypeMismatch;
use crate::log_template::{
    log_level_name, parse_placeholder, parse_template, spec_log_level_name, spec_parse_placeholder,
    spec_parse_template, template_error_text,
};
use crate::text::{contains_name, names_view, owned, push_str};
use crate::ty::string_clone;

verus! {

/// The tag of a log level by its variant name; a directive without a level
/// logs at `Info`.
pub open spec fn spec_level_tag(level: Option<Seq<char>>) -> Option<i64> {
    let l = match level {
        Some(l) => l,
        None => "Info"@,
    };
    if l == "Debug"@ {
        Some(0)
    } else if l == "Info"@ {
        Some(1)
    } else if l == "Warn"@ {
        Some(2)
    } else if l == "Error"@ {
        Some(3)
    } else {
        None
    }
}

/// The level's name as text, where one is given.
pub open spec fn level_view(level: Option<&String>) -> Option<Seq<char>> {
    match level {
        Some(l) => Some(l@),
        None => None,
    }
}

/// The tag of the level of a `@log` directive.
pub fn level_tag(level: Option<&String>) -> (r: Result<i64, TypeMismatch>)
    ensures
        match (r, spec_level_tag(level_view(level))) {
            (Ok(t), Some(st)) => t == st,
            (Err(m), None) => m.expected@ == "LogLevel variant (Debug, Info, Warn, Error)"@ && m.found@ == (
            match level {
                Some(l) => l@,
                None => "Info"@,
            }) && m.span == spec_synthetic(),
            _ => false,
        },
{
    let l = match level {
        Some(l) => string_clone(l),
        None => owned("Info"),
    };
    proof {
        reveal_strlit("Debug");
        reveal_strlit("Info");
        reveal_strlit("Warn");
        reveal_strlit("Error");
    }
    if crate::text::is_named(&l, "Debug") {
        Ok(0)
    } else if crate::text::is_named(&l, "Info") {
        Ok(1)
    } else if crate::text::is_named(&l, "Warn") {
        Ok(2)
    } else if crate::text::is_named(&l, "Error") {
        Ok(3)
    } else {
        Err(
            TypeMismatch {
                expected: owned("LogLevel variant (Debug, Info, Warn, Error)"),
                found: l,
                span: Span::synthetic(),
            },
        )
    }
}

/// The argument a placeholder gives: `{log_level}` is the level's name as
/// text, any other placeholder the expression it names.
pub open spec fn spec_placeholder_arg(tag: i64, ph: Seq<char>) -> Result<SExpr, Seq<char>> {
    if ph == "log_level"@ {
        Ok(SpecSpanned { node: SpecExpr::TextLit { text: spec_log_level_name(tag) }, span: spec_synthetic() })
    } else {
        match spec_parse_placeholder(ph) {
            Ok(e) => Ok(SpecSpanned { node: e, span: spec_synthetic() }),
            Err(m) => Err(m),
        }
    }
}

/// The arguments of the placeholders `ps`, in order; the first refused
/// placeholder ends it.
pub open spec fn spec_placeholder_args(tag: i64, ps: Seq<Seq<char>>) -> Result<Seq<SExpr>, Seq<char>>
    decreases ps.len(),
{
    if ps.len() == 0 {
        Ok(Seq::empty())
    } else {
        match spec_placeholder_args(tag, ps.drop_last()) {
            Err(m) => Err(m),
            Ok(prev) => match spec_placeholder_arg(tag, ps.last()) {
                Err(m) => Err(m),
                Ok(a) => Ok(prev.push(a)),
            },
        }
    }
}

/// The argument tuple of the message's `format` call: `()` for none, a
/// parenthesised one-element tuple for one, a tuple otherwise.
pub open spec fn spec_args_tuple(args: Seq<SExpr>) -> SpecExpr {
    if args.len() == 0 {
        SpecExpr::Unit
    } else if args.len() == 1 {
        SpecExpr::Grouping {
            inner: Box::new(SpecSpanned { node: SpecExpr::Tuple { elements: args }, span: spec_synthetic() }),
        }
    } else {
        SpecExpr::Tuple { elements: args }
    }
}

/// The two arguments of the message's `format` call, the template and the
/// argument tuple, with the placeholders; or the refusal, as expected and
/// found text.
pub open spec fn spec_log_message_args(tag: i64, msg: Seq<char>) -> Result<
    (Seq<SExpr>, Seq<Seq<char>>),
    (Seq<char>, Seq<char>),
> {
    match spec_parse_template(msg) {
        Err(e) => Err(("template válido: {expr}, {{ escapa {"@, template_error_text(e, msg))),
        Ok((t, ps)) => match spec_placeholder_args(tag, ps) {
            Err(m) => Err(("placeholder válido: {expr} ou {expr.field}"@, m)),
            Ok(args) => Ok(
                (
                    seq![
                        SpecSpanned { node: SpecExpr::TextLit { text: t }, span: spec_synthetic() },
                        SpecSpanned { node: spec_args_tuple(args), span: spec_synthetic() },
                    ],
                    ps,
                ),
            ),
        },
    }
}

/// The argument that placeholder `ph` gives the message's `format` call.
fn placeholder_arg(tag: i64, ph: &String) -> (r: Result<Spanned<Expr>, String>)
    ensures
        match (r, spec_placeholder_arg(tag, ph@)) {
            (Ok(a), Ok(sa)) => sexpr_view(a) == sa,
            (Err(m), Err(sm)) => m@ == sm,
            _ => false,
        },
{
    proof {
        reveal_strlit("log_level");
    }
    if crate::text::is_named(ph, "log_level") {
        let name = log_level_name(tag);
        Ok(Spanned::new(Expr::TextLit { text: owned(name) }, Span::synthetic()))
    } else {
        match parse_placeholder(ph.as_str()) {
            Ok(e) => Ok(Spanned::new(e, Span::synthetic())),
            Err(e) => Err(e),
        }
    }
}

/// A refused placeholder refuses every longer list that starts with it.
proof fn lemma_placeholder_args_prefix(tag: i64, ps: Seq<Seq<char>>, j: int)
    requires
        0 <= j <= ps.len(),
        spec_placeholder_args(tag, ps.take(j)) is Err,
    ensures
        spec_placeholder_args(tag, ps) == spec_placeholder_args(tag, ps.take(j)),
    decreases ps.len(),
{
    if j == ps.len() {
        assert(ps.take(j) =~= ps);
    } else {
        assert(ps.drop_last().take(j) =~= ps.take(j));
        lemma_placeholder_args_prefix(tag, ps.drop_last(), j);
    }
}

/// The arguments of the placeholders, in order, or the first refusal.
fn placeholder_args(tag: i64, placeholders: &Vec<String>) -> (r: Result<Vec<Spanned<Expr>>, String>)
    ensures
        match (r, spec_placeholder_args(tag, names_view(placeholders@))) {
            (Ok(args), Ok(sargs)) => sexprs_view(args@) == sargs,
            (Err(m), Err(sm)) => m@ == sm,
            _ => false,
        },
{
    let ghost ps = names_view(placeholders@);
    let mut args: Vec<Spanned<Expr>> = Vec::new();
    let mut i: usize = 0;
    proof {
        assert(ps.take(0) =~= Seq::<Seq<char>>::empty());
        assert(sexprs_view(args@) =~= Seq::<SExpr>::empty());
    }
    while i < placeholders.len()
        invariant
            i <= placeholders@.len(),
            ps == names_view(placeholders@),
            spec_placeholder_args(tag, ps.take(i as int)) == Ok::<Seq<SExpr>, Seq<char>>(sexprs_view(args@)),
        decreases placeholders@.len() - i,
    {
        let ph = &placeholders[i];
        proof {
            let t = ps.take(i + 1);
            assert(t.drop_last() =~= ps.take(i as int));
            assert(t.last() == ph@);
        }
        match placeholder_arg(tag, ph) {
            Ok(arg) => {
                let ghost before = args@;
                args.push(arg);
                assert(sexprs_view(args@) =~= sexprs_view(before).push(sexpr_view(arg)));
            },
            Err(e) => {
                proof {
                    lemma_placeholder_args_prefix(tag, ps, i + 1);
                }
                return Err(e);
            },
        }
        i += 1;
    }
    assert(ps.take(placeholders@.len() as int) =~= ps);
    Ok(args)
}

/// The two arguments of the message's `format` call: the template and the
/// tuple of the placeholders' arguments.
fn format_call_args(template: String, args: Vec<Spanned<Expr>>) -> (r: Vec<Spanned<Expr>>)
    ensures
        sexprs_view(r@) == seq![
            SpecSpanned { node: SpecExpr::TextLit { text: template@ }, span: spec_synthetic() },
            SpecSpanned { node: spec_args_tuple(sexprs_view(args@)), span: spec_synthetic() },
        ],
{
    let ghost av = sexprs_view(args@);
    let ghost tv = template@;
    let n = args.len();
    let tuple_expr = if n == 0 {
        Expr::Unit
    } else if n == 1 {
        let inner = Spanned::new(Expr::Tuple { elements: args }, Span::synthetic());
        assert(sexpr_view(inner) == SpecSpanned {
            node: SpecExpr::Tuple { elements: av },
            span: spec_synthetic(),
        });
        Expr::Grouping { inner: Box::new(inner) }
    } else {
        Expr::Tuple { elements: args }
    };
    assert(tuple_expr@ == spec_args_tuple(av));
    let mut out: Vec<Spanned<Expr>> = Vec::new();
    out.push(Spanned::new(Expr::TextLit { text: template }, Span::synthetic()));
    out.push(Spanned::new(tuple_expr, Span::synthetic()));
    assert(sexprs_view(out@) =~= seq![
        SpecSpanned { node: SpecExpr::TextLit { text: tv }, span: spec_synthetic() },
        SpecSpanned { node: spec_args_tuple(av), span: spec_synthetic() },
    ]);
    out
}

/// Builds the arguments of the `format` call for the message of a `@log`
/// directive at level `tag`.
pub fn log_message_args(tag: i64, msg: &str) -> (r: Result<(Vec<Spanned<Expr>>, Vec<String>), TypeMismatch>)
    ensures
        match (r, spec_log_message_args(tag, msg@)) {
            (Ok((args, ps)), Ok((sargs, sps))) => sexprs_view(args@) == sargs && names_view(ps@) == sps,
            (Err(m), Err((exp, found))) => m.expected@ == exp && m.found@ == found && m.span
                == spec_synthetic(),
            _ => false,
        },
{
    match parse_template(msg) {
        Err(e) => Err(
            TypeMismatch {
                expected: owned("template válido: {expr}, {{ escapa {"),
                found: e,
                span: Span::synthetic(),
            },
        ),
        Ok((template, placeholders)) => match placeholder_args(tag, &placeholders) {
            Err(e) => Err(
                TypeMismatch {
                    expected: owned("placeholder válido: {expr} ou {expr.field}"),
                    found: e,
                    span: Span::synthetic(),
                },
            ),
            Ok(args) => Ok((format_call_args(template, args), placeholders)),
        },
    }
}

/// Each placeholder gives one argument.
proof fn lemma_placeholder_args_len(tag: i64, ps: Seq<Seq<char>>)
    ensures
        spec_placeholder_args(tag, ps) matches Ok(args) ==> args.len() == ps.len(),
    decreases ps.len(),
{
    if ps.len() > 0 {
        lemma_placeholder_args_len(tag, ps.drop_last());
    }
}

/// A message accepted for a `@log` directive gives its `format` call the
/// template and one argument per placeholder: `()` for none, a
/// parenthesised one-element tuple for one, a tuple of as many elements as
/// placeholders otherwise.
pub proof fn law_one_argument_per_placeholder(tag: i64, msg: Seq<char>)
    requires
        spec_log_message_args(tag, msg) is Ok,
    ensures
        ({
            let (args, ps) = spec_log_message_args(tag, msg)->Ok_0;
            &&& args.len() == 2
            &&& args[0].node is TextLit
            &&& ps.len() == 0 ==> args[1].node is Unit
            &&& ps.len() == 1 ==> (args[1].node matches SpecExpr::Grouping { inner } && inner.node matches SpecExpr::Tuple {
                elements,
            } && elements.len() == 1)
            &&& ps.len() >= 2 ==> (args[1].node matches SpecExpr::Tuple { elements } && elements.len() == ps.len())
        }),
{
    let (_, ps) = spec_parse_template(msg)->Ok_0;
    lemma_placeholder_args_len(tag, ps);
}

/// The name a placeholder starts with: what comes before its first dot.
pub open spec fn placeholder_root(ph: Seq<char>) -> Seq<char> {
    if ph.contains('.') {
        ph.take(choose|k: int| 0 <= k < ph.len() && ph[k] == '.' && forall|q: int| 0 <= q < k ==> ph[q] != '.')
    } else {
        ph
    }
}

/// The `{:?}` text of a list of names.
pub uninterp spec fn spec_debug_names(names: Seq<Seq<char>>) -> Seq<char>;

/// The `{:?}` text of a list of names, by `Vec<String>`'s `Debug`.
#[verifier::external_body]
fn debug_names(names: &Vec<String>) -> (r: String)
    ensures
        r@ == spec_debug_names(names_view(names@)),
{
    format!("{:?}", names)
}

/// The refusal of placeholder `ph`, whose name `root` is no parameter.
pub open spec fn enter_error(params: Seq<Seq<char>>, ph: Seq<char>) -> (Seq<char>, Seq<char>) {
    (
        "when: \"enter\" só pode referenciar params ["@ + spec_debug_names(params) + "], mas \""@
            + placeholder_root(ph) + "\" não é param"@,
        "placeholder {"@ + ph + "} referencia var do corpo"@,
    )
}

/// A message logged on entry may only name parameters (and the level):
/// the first placeholder, in order, that names anything else is refused.
pub open spec fn spec_check_enter(ps: Seq<Seq<char>>, params: Seq<Seq<char>>) -> Option<(Seq<char>, Seq<char>)>
    decreases ps.len(),
{
    if ps.len() == 0 {
        None
    } else {
        match spec_check_enter(ps.drop_last(), params) {
            Some(e) => Some(e),
            None => {
                let ph = ps.last();
                if ph != "log_level"@ && !params.contains(placeholder_root(ph)) {
                    Some(enter_error(params, ph))
                } else {
                    None
                }
            },
        }
    }
}

/// The name placeholder `ph` starts with.
fn root_of(ph: &String) -> (r: String)
    ensures
        r@ == placeholder_root(ph@),
{
    let chars = crate::text::chars_of(ph.as_str());
    let mut k: usize = 0;
    while k < chars.len() && chars[k] != '.'
        invariant
            k <= chars@.len(),
            chars@ == ph@,
            forall|q: int| 0 <= q < k ==> chars@[q] != '.',
        decreases chars@.len() - k,
    {
        k += 1;
    }
    let mut root_chars: Vec<char> = Vec::new();
    let mut q: usize = 0;
    while q < k
        invariant
            q <= k <= chars@.len(),
            root_chars@ == chars@.take(q as int),
        decreases k - q,
    {
        root_chars.push(chars[q]);
        assert(root_chars@ =~= chars@.take(q + 1));
        q += 1;
    }
    let root = crate::text::string_of_chars(&root_chars);
    proof {
        if k < chars@.len() {
            assert(ph@.contains('.')) by {
                assert(ph@[k as int] == '.');
            }
            let c = choose|c: int|
                0 <= c < ph@.len() && ph@[c] == '.' && forall|q: int| 0 <= q < c ==> ph@[q] != '.';
            assert(c == k as int) by {
                if c < k as int {
                    assert(chars@[c] != '.');
                } else if c > k as int {
                    assert(ph@[k as int] != '.');
                }
            }
        } else {
            assert(!ph@.contains('.'));
            assert(chars@.take(k as int) =~= chars@);
        }
    }
    root
}

/// A refusal among the first placeholders is the refusal of the whole list.
proof fn lemma_check_enter_prefix(ps: Seq<Seq<char>>, params: Seq<Seq<char>>, j: int)
    requires
        0 <= j <= ps.len(),
        spec_check_enter(ps.take(j), params) is Some,
    ensures
        spec_check_enter(ps, params) == spec_check_enter(ps.take(j), params),
    decreases ps.len(),
{
    if j == ps.len() {
        assert(ps.take(j) =~= ps);
    } else {
        assert(ps.drop_last().take(j) =~= ps.take(j));
        lemma_check_enter_prefix(ps.drop_last(), params, j);
    }
}

/// Checks that the placeholders of a message logged on entry name only
/// parameters.
pub fn check_enter_placeholders(placeholders: &Vec<String>, param_names: &Vec<String>) -> (r: Result<
    (),
    TypeMismatch,
>)
    ensures
        match (r, spec_check_enter(names_view(placeholders@), names_view(param_names@))) {
            (Ok(()), None) => true,
            (Err(m), Some((exp, found))) => m.expected@ == exp && m.found@ == found && m.span
                == spec_synthetic(),
            _ => false,
        },
{
    let ghost ps = names_view(placeholders@);
    let ghost params = names_view(param_names@);
    let mut i: usize = 0;
    proof {
        reveal_strlit("log_level");
        assert(ps.take(0) =~= Seq::<Seq<char>>::empty());
    }
    while i < placeholders.len()
        invariant
            i <= placeholders@.len(),
            ps == names_view(placeholders@),
            params == names_view(param_names@),
            spec_check_enter(ps.take(i as int), params) is None,
        decreases placeholders@.len() - i,
    {
        let ph = &placeholders[i];
        proof {
            let t = ps.take(i + 1);
            assert(t.drop_last() =~= ps.take(i as int));
            assert(t.last() == ph@);
        }
        if !crate::text::is_named(ph, "log_level") {
            let root = root_of(ph);
            if !contains_name(param_names.as_slice(), &root) {
                let mut expected = owned("when: \"enter\" só pode referenciar params [");
                let dbg = debug_names(param_names);
                push_str(&mut expected, dbg.as_str());
                push_str(&mut expected, "], mas \"");
                push_str(&mut expected, root.as_str());
                push_str(&mut expected, "\" não é param");
                let mut found = owned("placeholder {");
                push_str(&mut found, ph.as_str());
                push_str(&mut found, "} referencia var do corpo");
                proof {
                    assert(spec_check_enter(ps.take(i + 1), params) == Some(enter_error(params, ph@)));
                    lemma_check_enter_prefix(ps, params, i + 1);
                }
                return Err(TypeMismatch { expected, found, span: Span::synthetic() });
            }
        }
        i += 1;
    }
    assert(ps.take(placeholders@.len() as int) =~= ps);
    Ok(())
}

proof fn lemma_level_names_distinct()
    ensures
        "Debug"@ != "Info"@,
        "Debug"@ != "Warn"@,
        "Debug"@ != "Error"@,
        "Info"@ != "Warn"@,
        "Info"@ != "Error"@,
        "Warn"@ != "Error"@,
{
    reveal_strlit("Debug");
    reveal_strlit("Info");
    reveal_strlit("Warn");
    reveal_strlit("Error");
    assert("Debug"@.len() != "Info"@.len());
    assert("Debug"@.len() != "Warn"@.len());
    assert("Debug"@[0] != "Error"@[0]);
    assert("Info"@[0] != "Warn"@[0]);
    assert("Info"@.len() != "Error"@.len());
    assert("Warn"@.len() != "Error"@.len());
}

/// Level names and tags are inverse: the tag a level name is read as is
/// named by that name, each of the four tags is read back from its name,
/// and a directive without a level logs at `Info`.
pub proof fn law_level_tag_names(name: Seq<char>, t: i64)
    ensures
        spec_level_tag(Some(name)) matches Some(u) ==> crate::log_template::spec_log_level_name(u) == name,
        0 <= t <= 3 ==> spec_level_tag(Some(crate::log_template::spec_log_level_name(t))) == Some(t),
        spec_level_tag(None) == Some(1i64),
        crate::log_template::spec_log_level_name(1) == "Info"@,
{
    lemma_level_names_distinct();
}

} // verus!
