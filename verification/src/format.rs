//! Text produced for `format!` templates and for diagnostics of partial
//! dispatch.

use vstd::prelude::*;

use crate::text::{chars_of, join_strings, names_view, owned, push_str, spec_join, string_of_chars};
use crate::ty::string_clone;

verus! {

/// `s` with each occurrence of `pat`, taken left to right without overlap,
/// replaced by `rep`.
pub open spec fn spec_replace(s: Seq<char>, pat: Seq<char>, rep: Seq<char>) -> Seq<char>
    decreases s.len(),
{
    if s.len() == 0 {
        s
    } else if 0 < pat.len() <= s.len() && s.take(pat.len() as int) == pat {
        rep + spec_replace(s.skip(pat.len() as int), pat, rep)
    } else {
        seq![s[0]] + spec_replace(s.skip(1), pat, rep)
    }
}

/// Whether `pat` occurs in `s` at position `i`.
fn occurs_at(s: &Vec<char>, i: usize, pat: &Vec<char>) -> (r: bool)
    requires
        i <= s@.len(),
    ensures
        r == (pat@.len() <= s@.len() - i && s@.subrange(i as int, i + pat@.len()) == pat@),
{
    if pat.len() > s.len() - i {
        return false;
    }
    let mut k: usize = 0;
    while k < pat.len()
        invariant
            k <= pat@.len(),
            pat@.len() <= s@.len() - i,
            i + pat@.len() <= s.len(),
            i <= s@.len(),
            forall|q: int| 0 <= q < k ==> s@[i + q] == pat@[q],
        decreases pat@.len() - k,
    {
        if s[i + k] != pat[k] {
            assert(s@.subrange(i as int, i + pat@.len())[k as int] != pat@[k as int]);
            return false;
        }
        k += 1;
    }
    assert(s@.subrange(i as int, i + pat@.len()) =~= pat@);
    true
}

/// `s` with each occurrence of `pat` replaced by `rep`.
fn replace_all(s: &Vec<char>, pat: &Vec<char>, rep: &Vec<char>) -> (r: Vec<char>)
    requires
        pat@.len() > 0,
    ensures
        r@ == spec_replace(s@, pat@, rep@),
{
    let mut out: Vec<char> = Vec::new();
    let mut i: usize = 0;
    assert(s@.skip(0) =~= s@);
    assert(Seq::<char>::empty() + spec_replace(s@, pat@, rep@) =~= spec_replace(s@, pat@, rep@));
    while i < s.len()
        invariant
            i <= s@.len(),
            pat@.len() > 0,
            out@ + spec_replace(s@.skip(i as int), pat@, rep@) == spec_replace(s@, pat@, rep@),
        decreases s@.len() - i,
    {
        let ghost t = s@.skip(i as int);
        let ghost o = out@;
        if occurs_at(s, i, pat) {
            let mut k: usize = 0;
            while k < rep.len()
                invariant
                    k <= rep@.len(),
                    out@ == o + rep@.take(k as int),
                decreases rep@.len() - k,
            {
                out.push(rep[k]);
                assert(out@ =~= o + rep@.take(k + 1));
                k += 1;
            }
            proof {
                assert(t.take(pat@.len() as int) =~= s@.subrange(i as int, i + pat@.len()));
                assert(t.skip(pat@.len() as int) =~= s@.skip(i + pat@.len()));
                assert(rep@.take(rep@.len() as int) =~= rep@);
                assert(o + (rep@ + spec_replace(s@.skip(i + pat@.len()), pat@, rep@)) =~= (o + rep@)
                    + spec_replace(s@.skip(i + pat@.len()), pat@, rep@));
            }
            i = i + pat.len();
        } else {
            out.push(s[i]);
            proof {
                if pat@.len() <= t.len() {
                    assert(t.take(pat@.len() as int) =~= s@.subrange(i as int, i + pat@.len()));
                }
                assert(t.skip(1) =~= s@.skip(i + 1));
                assert(o + (seq![s@[i as int]] + spec_replace(s@.skip(i + 1), pat@, rep@)) =~= o.push(
                    s@[i as int],
                ) + spec_replace(s@.skip(i + 1), pat@, rep@));
            }
            i += 1;
        }
    }
    proof {
        assert(s@.skip(i as int) =~= Seq::<char>::empty());
        assert(out@ + Seq::<char>::empty() =~= out@);
    }
    out
}

/// What [`preprocess_escape`] makes of `text`: every `{{` becomes `{`,
/// then every `}}` becomes `}`; every other character, a single brace of
/// `{key}` included, is kept.
pub open spec fn spec_preprocess_escape(text: Seq<char>) -> Seq<char> {
    spec_replace(spec_replace(text, seq!['{', '{'], seq!['{']), seq!['}', '}'], seq!['}'])
}

/// Turns the escaped braces of a `format!` template into literal ones.
pub fn preprocess_escape(text: &str) -> (r: String)
    ensures
        r@ == spec_preprocess_escape(text@),
{
    let chars = chars_of(text);
    let mut open2: Vec<char> = Vec::new();
    open2.push('{');
    open2.push('{');
    let mut close2: Vec<char> = Vec::new();
    close2.push('}');
    close2.push('}');
    let mut open1: Vec<char> = Vec::new();
    open1.push('{');
    let mut close1: Vec<char> = Vec::new();
    close1.push('}');
    proof {
        assert(open2@ =~= seq!['{', '{']);
        assert(close2@ =~= seq!['}', '}']);
        assert(open1@ =~= seq!['{']);
        assert(close1@ =~= seq!['}']);
    }
    let a = replace_all(&chars, &open2, &open1);
    let b = replace_all(&a, &close2, &close1);
    string_of_chars(&b)
}

/// Why a partial dispatch failed.
pub enum PartialDispatchReason {
    /// No overload fits; `overloads` lists the signatures tried.
    NoOverload { overloads: Vec<String> },
    /// More than one overload fits.
    Ambiguous,
}

/// A failed partial dispatch: the callee, the types known for its
/// arguments (`None` where unknown), and why it failed.
pub struct PartialDispatchFailure {
    pub callee: String,
    pub arg_types: Vec<Option<String>>,
    pub reason: PartialDispatchReason,
}

/// The argument types as shown: a known type by its name, an unknown one
/// as `?`.
pub open spec fn shown_args(args: Seq<Option<String>>) -> Seq<Seq<char>> {
    Seq::new(
        args.len(),
        |i: int|
            match args[i] {
                Some(t) => t@,
                None => "?"@,
            },
    )
}

/// The diagnostic text for a failed partial dispatch.
pub open spec fn spec_failure_detail(
    callee: Seq<char>,
    args: Seq<Option<String>>,
    reason: PartialDispatchReason,
) -> Seq<char> {
    let head = "partial dispatch tentou `"@ + callee + "` com args ["@ + spec_join(
        shown_args(args),
        ", "@,
    ) + "]"@;
    match reason {
        PartialDispatchReason::NoOverload { overloads } => if overloads@.len() == 0 {
            head + " mas não resolveu todos os parâmetros"@
        } else {
            head + " — nenhuma overload casa. Overloads: "@ + spec_join(names_view(overloads@), ", "@)
        },
        PartialDispatchReason::Ambiguous => head + " — múltiplas overloads casam (ambíguo)"@,
    }
}

/// Formats the context of a failed partial dispatch for a diagnostic.
pub fn format_failure_detail(f: PartialDispatchFailure) -> (r: String)
    ensures
        r@ == spec_failure_detail(f.callee@, f.arg_types@, f.reason),
{
    let mut shown: Vec<String> = Vec::new();
    let mut i: usize = 0;
    while i < f.arg_types.len()
        invariant
            i <= f.arg_types@.len(),
            names_view(shown@) == shown_args(f.arg_types@).take(i as int),
        decreases f.arg_types@.len() - i,
    {
        let s = match &f.arg_types[i] {
            Some(t) => string_clone(t),
            None => owned("?"),
        };
        assert(s@ == shown_args(f.arg_types@)[i as int]);
        let ghost before = shown@;
        assert(before.len() == i) by {
            assert(names_view(before).len() == before.len());
        }
        shown.push(s);
        proof {
            assert(shown@ == before.push(s));
            assert forall|q: int| 0 <= q < i + 1 implies #[trigger] names_view(shown@)[q]
                == shown_args(f.arg_types@).take(i + 1)[q] by {
                if q < i {
                    assert(shown@[q] == before[q]);
                    assert(names_view(before)[q] == shown_args(f.arg_types@).take(i as int)[q]);
                }
            }
            assert(names_view(shown@) =~= shown_args(f.arg_types@).take(i + 1));
        }
        i += 1;
    }
    assert(shown_args(f.arg_types@).take(f.arg_types@.len() as int) =~= shown_args(f.arg_types@));
    let args_str = join_strings(&shown, ", ");
    let mut out = owned("partial dispatch tentou `");
    push_str(&mut out, f.callee.as_str());
    push_str(&mut out, "` com args [");
    push_str(&mut out, args_str.as_str());
    push_str(&mut out, "]");
    match &f.reason {
        PartialDispatchReason::NoOverload { overloads } => {
            if overloads.len() == 0 {
                push_str(&mut out, " mas não resolveu todos os parâmetros");
            } else {
                push_str(&mut out, " — nenhuma overload casa. Overloads: ");
                let ov = join_strings(overloads, ", ");
                push_str(&mut out, ov.as_str());
            }
        },
        PartialDispatchReason::Ambiguous => {
            push_str(&mut out, " — múltiplas overloads casam (ambíguo)");
        },
    }
    out
}

/// A two-character pattern that does not occur leaves the text unchanged.
proof fn lemma_replace_absent(s: Seq<char>, pat: Seq<char>, rep: Seq<char>)
    requires
        pat.len() == 2,
        forall|i: int| 0 <= i < s.len() - 1 ==> !(#[trigger] s[i] == pat[0] && s[i + 1] == pat[1]),
    ensures
        spec_replace(s, pat, rep) == s,
    decreases s.len(),
{
    if s.len() > 0 {
        if s.len() >= 2 {
            assert(s.take(2) != pat) by {
                if s.take(2) == pat {
                    assert(s[0] == pat[0] && s[1] == pat[1]);
                }
            }
        }
        let t = s.skip(1);
        assert forall|i: int| 0 <= i < t.len() - 1 implies !(#[trigger] t[i] == pat[0] && t[i + 1] == pat[1]) by {
            assert(t[i] == s[i + 1] && t[i + 1] == s[i + 2]);
        }
        lemma_replace_absent(t, pat, rep);
        assert(seq![s[0]] + t =~= s);
    }
}

/// A template without `{{` and `}}` is kept as it is: single braces, and
/// every other character, stand for themselves.
pub proof fn law_preprocess_escape_keeps_plain_text(text: Seq<char>)
    requires
        forall|i: int|
            0 <= i < text.len() - 1 ==> !(#[trigger] text[i] == '{' && text[i + 1] == '{') && !(text[i] == '}' && text[i
                + 1] == '}'),
    ensures
        spec_preprocess_escape(text) == text,
{
    lemma_replace_absent(text, seq!['{', '{'], seq!['{']);
    lemma_replace_absent(text, seq!['}', '}'], seq!['}']);
}

} // verus!
