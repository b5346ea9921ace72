//! Log message templates: `"processing {x}, result: {y}"` holds the
//! placeholders `x` and `y`; `{{` and `}}` stand for literal braces.

use vstd::prelude::*;

use crate::ast::{dot_index_view, DotIndex, Expr, Span, Spanned, SpecDotIndex, SpecExpr, spec_synthetic};
use crate::text::{
    chars_of, names_view, owned, push_char, push_str, spec_trim, string_of_chars, trim_chars,
};

verus! {

/// Why a template is refused.
pub enum TemplateError {
    /// A `{` with no `}` after it.
    Unclosed,
    /// A placeholder with nothing but white space in it.
    EmptyPlaceholder,
    /// A `}` that is not part of `}}` and closes nothing.
    Unopened,
}

/// The number of characters before the first `}` of `t`, or its length.
pub open spec fn first_close(t: Seq<char>) -> nat
    decreases t.len(),
{
    if t.len() == 0 {
        0
    } else if t[0] == '}' {
        0
    } else {
        1 + first_close(t.drop_first())
    }
}

/// `r` with `text` put in front of its template.
pub open spec fn with_text(
    text: Seq<char>,
    r: Result<(Seq<char>, Seq<Seq<char>>), TemplateError>,
) -> Result<(Seq<char>, Seq<Seq<char>>), TemplateError> {
    match r {
        Ok((t, ps)) => Ok((text + t, ps)),
        Err(e) => Err(e),
    }
}

/// `r` with the placeholder `ph` put in front: `{}` in the template and
/// `ph` in the list.
pub open spec fn with_placeholder(
    ph: Seq<char>,
    r: Result<(Seq<char>, Seq<Seq<char>>), TemplateError>,
) -> Result<(Seq<char>, Seq<Seq<char>>), TemplateError> {
    match r {
        Ok((t, ps)) => Ok((seq!['{', '}'] + t, seq![ph] + ps)),
        Err(e) => Err(e),
    }
}

/// The template of `s` with `{}` for each placeholder and single braces for
/// doubled ones, and the placeholders, trimmed, in order; or why `s` is
/// refused.
pub open spec fn spec_parse_template(s: Seq<char>) -> Result<(Seq<char>, Seq<Seq<char>>), TemplateError>
    decreases s.len(),
{
    if s.len() == 0 {
        Ok((Seq::empty(), Seq::empty()))
    } else if s[0] == '{' {
        if s.len() > 1 && s[1] == '{' {
            with_text(seq!['{'], spec_parse_template(s.skip(2)))
        } else {
            let rest = s.skip(1);
            let k = first_close(rest) as int;
            if k >= rest.len() {
                Err(TemplateError::Unclosed)
            } else {
                let ph = spec_trim(rest.take(k));
                if ph.len() == 0 {
                    Err(TemplateError::EmptyPlaceholder)
                } else {
                    with_placeholder(ph, spec_parse_template(rest.skip(k + 1 as int)))
                }
            }
        }
    } else if s[0] == '}' {
        if s.len() > 1 && s[1] == '}' {
            with_text(seq!['}'], spec_parse_template(s.skip(2)))
        } else {
            Err(TemplateError::Unopened)
        }
    } else {
        with_text(seq![s[0]], spec_parse_template(s.skip(1)))
    }
}

/// The message of a refusal of the template `msg`.
pub open spec fn template_error_text(e: TemplateError, msg: Seq<char>) -> Seq<char> {
    let head = match e {
        TemplateError::Unclosed => "template: { sem } correspondente em \""@,
        TemplateError::EmptyPlaceholder => "template: placeholder vazio {} em \""@,
        TemplateError::Unopened => "template: } sem { correspondente em \""@,
    };
    head + msg + "\""@
}

spec fn combine(
    t: Seq<char>,
    ps: Seq<Seq<char>>,
    r: Result<(Seq<char>, Seq<Seq<char>>), TemplateError>,
) -> Result<(Seq<char>, Seq<Seq<char>>), TemplateError> {
    match r {
        Ok((t2, ps2)) => Ok((t + t2, ps + ps2)),
        Err(e) => Err(e),
    }
}

proof fn lemma_combine_text(
    t: Seq<char>,
    ps: Seq<Seq<char>>,
    text: Seq<char>,
    r: Result<(Seq<char>, Seq<Seq<char>>), TemplateError>,
)
    ensures
        combine(t, ps, with_text(text, r)) == combine(t + text, ps, r),
{
    match r {
        Ok((t2, ps2)) => {
            assert(t + (text + t2) =~= (t + text) + t2);
        },
        Err(_) => {},
    }
}

proof fn lemma_combine_placeholder(
    t: Seq<char>,
    ps: Seq<Seq<char>>,
    ph: Seq<char>,
    r: Result<(Seq<char>, Seq<Seq<char>>), TemplateError>,
)
    ensures
        combine(t, ps, with_placeholder(ph, r)) == combine(t + seq!['{', '}'], ps.push(ph), r),
{
    match r {
        Ok((t2, ps2)) => {
            assert(t + (seq!['{', '}'] + t2) =~= (t + seq!['{', '}']) + t2);
            assert(ps + (seq![ph] + ps2) =~= ps.push(ph) + ps2);
        },
        Err(_) => {},
    }
}

proof fn lemma_first_close(t: Seq<char>, m: int)
    requires
        0 <= m <= t.len(),
        forall|q: int| 0 <= q < m ==> t[q] != '}',
        m == t.len() || t[m] == '}',
    ensures
        first_close(t) == m,
    decreases m,
{
    if m > 0 {
        assert forall|q: int| 0 <= q < m - 1 implies t.drop_first()[q] != '}' by {
            assert(t.drop_first()[q] == t[q + 1]);
        }
        lemma_first_close(t.drop_first(), m - 1);
    }
}

/// Splits a log template into its text, with `{}` for each placeholder,
/// and the placeholders, trimmed, in order.
pub fn parse_template(msg: &str) -> (r: Result<(String, Vec<String>), String>)
    ensures
        match (r, spec_parse_template(msg@)) {
            (Ok((t, ps)), Ok((st, sps))) => t@ == st && names_view(ps@) == sps,
            (Err(m), Err(e)) => m@ == template_error_text(e, msg@),
            _ => false,
        },
{
    let mut template = String::new();
    let mut placeholders: Vec<String> = Vec::new();
    let chars = chars_of(msg);
    let ghost s = chars@;
    let n = chars.len();
    let mut i: usize = 0;
    proof {
        assert(s.skip(0) =~= s);
        match spec_parse_template(s) {
            Ok((t2, ps2)) => {
                assert(Seq::<char>::empty() + t2 =~= t2);
                assert(Seq::<Seq<char>>::empty() + ps2 =~= ps2);
            },
            Err(_) => {},
        }
        assert(names_view(placeholders@) =~= Seq::<Seq<char>>::empty());
    }
    while i < n
        invariant
            n == chars@.len(),
            s == chars@,
            s == msg@,
            i <= n,
            spec_parse_template(s) == combine(
                template@,
                names_view(placeholders@),
                spec_parse_template(s.skip(i as int)),
            ),
        decreases n - i,
    {
        let ghost t0 = template@;
        let ghost p0 = names_view(placeholders@);
        let c = chars[i];
        if c == '{' {
            if i + 1 < n && chars[i + 1] == '{' {
                push_char(&mut template, '{');
                proof {
                    assert(s.skip(i as int).skip(2) =~= s.skip(i + 2));
                    lemma_combine_text(t0, p0, seq!['{'], spec_parse_template(s.skip(i + 2)));
                    assert(template@ =~= t0 + seq!['{']);
                }
                i += 2;
            } else {
                let mut j: usize = i + 1;
                while j < n && chars[j] != '}'
                    invariant
                        i < j <= n,
                        n == chars@.len(),
                        forall|q: int| i < q < j ==> chars@[q] != '}',
                    decreases n - j,
                {
                    j += 1;
                }
                let ghost rest = s.skip(i + 1);
                proof {
                    assert(s.skip(i as int).skip(1) =~= rest);
                    assert(s.skip(i as int)[0] == '{');
                    assert(!(s.skip(i as int).len() > 1 && s.skip(i as int)[1] == '{'));
                    assert forall|q: int| 0 <= q < j - (i + 1) implies rest[q] != '}' by {
                        assert(rest[q] == s[q + i + 1]);
                    }
                    if j < n {
                        assert(rest[j - (i + 1)] == s[j as int]);
                    }
                    lemma_first_close(rest, j - (i + 1));
                }
                if j >= n {
                    let mut m = owned("template: { sem } correspondente em \"");
                    push_str(&mut m, msg);
                    push_str(&mut m, "\"");
                    return Err(m);
                }
                let ph = trim_chars(&chars, i + 1, j);
                proof {
                    assert(rest.take(j - (i + 1)) =~= s.subrange(i + 1, j as int));
                }
                if ph.len() == 0 {
                    let mut m = owned("template: placeholder vazio {} em \"");
                    push_str(&mut m, msg);
                    push_str(&mut m, "\"");
                    return Err(m);
                }
                push_str(&mut template, "{}");
                let ph_s = string_of_chars(&ph);
                placeholders.push(ph_s);
                proof {
                    reveal_strlit("{}");
                    assert(rest.skip(j - (i + 1) + 1) =~= s.skip(j + 1));
                    lemma_combine_placeholder(t0, p0, ph@, spec_parse_template(s.skip(j + 1)));
                    assert(template@ =~= t0 + seq!['{', '}']);
                    assert(names_view(placeholders@) =~= p0.push(ph@));
                }
                i = j + 1;
            }
        } else if c == '}' {
            if i + 1 < n && chars[i + 1] == '}' {
                push_char(&mut template, '}');
                proof {
                    assert(s.skip(i as int).skip(2) =~= s.skip(i + 2));
                    lemma_combine_text(t0, p0, seq!['}'], spec_parse_template(s.skip(i + 2)));
                    assert(template@ =~= t0 + seq!['}']);
                }
                i += 2;
            } else {
                let mut m = owned("template: } sem { correspondente em \"");
                push_str(&mut m, msg);
                push_str(&mut m, "\"");
                return Err(m);
            }
        } else {
            push_char(&mut template, c);
            proof {
                assert(s.skip(i as int).skip(1) =~= s.skip(i + 1));
                lemma_combine_text(t0, p0, seq![c], spec_parse_template(s.skip(i + 1)));
                assert(template@ =~= t0 + seq![c]);
            }
            i += 1;
        }
    }
    proof {
        assert(s.skip(n as int) =~= Seq::<char>::empty());
        assert(template@ + Seq::<char>::empty() =~= template@);
        assert(names_view(placeholders@) + Seq::<Seq<char>>::empty() =~= names_view(placeholders@));
    }
    Ok((template, placeholders))
}

/// The expression a placeholder stands for: `x` is the name `x`, and
/// `a.b` the field `b` of the name `a`, both trimmed.
pub open spec fn spec_parse_placeholder(ph: Seq<char>) -> Result<SpecExpr, Seq<char>> {
    if ph.contains('.') {
        let k = choose|k: int| 0 <= k < ph.len() && ph[k] == '.' && forall|q: int| 0 <= q < k ==> ph[q] != '.';
        if k + 1 == ph.len() {
            Err("placeholder inválido: "@ + ph)
        } else {
            Ok(SpecExpr::DotAccess {
                expr: Box::new(
                    crate::ast::SpecSpanned {
                        node: SpecExpr::Ident { name: spec_trim(ph.take(k)) },
                        span: spec_synthetic(),
                    },
                ),
                index: SpecDotIndex::Field(spec_trim(ph.skip(k + 1))),
            })
        }
    } else {
        Ok(SpecExpr::Ident { name: ph })
    }
}

/// Builds the expression that a placeholder stands for.
pub fn parse_placeholder(ph: &str) -> (r: Result<Expr, String>)
    ensures
        match (r, spec_parse_placeholder(ph@)) {
            (Ok(e), Ok(se)) => e@ == se,
            (Err(m), Err(sm)) => m@ == sm,
            _ => false,
        },
{
    let chars = chars_of(ph);
    let n = chars.len();
    let mut k: usize = 0;
    while k < n && chars[k] != '.'
        invariant
            k <= n,
            n == chars@.len(),
            chars@ == ph@,
            forall|q: int| 0 <= q < k ==> chars@[q] != '.',
        decreases n - k,
    {
        k += 1;
    }
    if k == n {
        proof {
            assert(!ph@.contains('.'));
        }
        return Ok(Expr::Ident { name: owned(ph) });
    }
    proof {
        assert(ph@.contains('.')) by {
            assert(ph@[k as int] == '.');
        }
        let c = choose|c: int| 0 <= c < ph@.len() && ph@[c] == '.' && forall|q: int| 0 <= q < c ==> ph@[q] != '.';
        assert(c == k as int) by {
            if c < k as int {
                assert(chars@[c] != '.');
            } else if c > k as int {
                assert(ph@[k as int] != '.');
            }
        }
    }
    if k + 1 == n {
        let mut m = owned("placeholder inválido: ");
        push_str(&mut m, ph);
        return Err(m);
    }
    let head = trim_chars(&chars, 0, k);
    let field = trim_chars(&chars, k + 1, n);
    proof {
        assert(chars@.subrange(0, k as int) =~= ph@.take(k as int));
        assert(chars@.subrange(k + 1, n as int) =~= ph@.skip(k + 1));
    }
    let name = string_of_chars(&head);
    let inner = Spanned::new(Expr::Ident { name }, Span::synthetic());
    let fname = string_of_chars(&field);
    let ghost iv = inner@;
    let ghost fv = fname@;
    let index = DotIndex::Field(fname);
    assert(dot_index_view(index) == SpecDotIndex::Field(fv));
    let e = Expr::DotAccess { expr: Box::new(inner), index };
    assert(e@ == SpecExpr::DotAccess { expr: Box::new(iv), index: SpecDotIndex::Field(fv) });
    Ok(e)
}

/// The name of a log level tag: 0 `Debug`, 1 `Info`, 2 `Warn`, 3 `Error`,
/// anything else `Unknown`.
pub open spec fn spec_log_level_name(tag: i64) -> Seq<char> {
    if tag == 0 {
        "Debug"@
    } else if tag == 1 {
        "Info"@
    } else if tag == 2 {
        "Warn"@
    } else if tag == 3 {
        "Error"@
    } else {
        "Unknown"@
    }
}

/// The name of a log level tag.
pub fn log_level_name(tag: i64) -> (r: &'static str)
    ensures
        r@ == spec_log_level_name(tag),
{
    match tag {
        0 => "Debug",
        1 => "Info",
        2 => "Warn",
        3 => "Error",
        _ => "Unknown",
    }
}

} // verus!
