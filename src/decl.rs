//! The decomposed function declaration and its reassembly.

use vstd::prelude::*;
use vstd::string::*;
use crate::pattern::{group_texts, regex_captures, regex_captures_of};
use crate::text::{
    add_space_or_empty, is_trim_fixed, lemma_trim_fixed, lemma_trim_is_fixed, lemma_trim_padded,
    spaced, trim, trim_end, trim_start, trim_text,
};

verus! {

/// The shape a function declaration must have: prologue, visibility,
/// asynchrony, name, parameter list, return clause and body, in that order.
pub const DECLARATION_PATTERN: &'static str =
    r#"^([\w\W]*?) *(pub +)?(async +)?fn +([\w\W]*?)(\([\w\W]*?) +?(->[\w\W]*?)?[ \n]*\{([\S\s]*)\}"#;

/// Why a text could not be decomposed into a declaration.
#[derive(Debug, Clone, Copy, PartialEq, Eq, Structural)]
pub enum DeclError {
    /// The text does not have the shape of a function declaration.
    NoMatch,
    /// The match has other groups than a declaration needs, or an empty
    /// name or parameter list.
    Malformed,
}

/// A function declaration split into its parts.
pub struct FunctionDecl {
    pub func_prologue: String,
    pub pub_str: String,
    pub async_str: String,
    pub fn_name: String,
    pub fn_decl: String,
    pub ret_decl: String,
    pub fn_body: String,
}

/// The parts of a declaration as character sequences.
pub struct DeclView {
    pub prologue: Seq<char>,
    pub visibility: Seq<char>,
    pub asynchrony: Seq<char>,
    pub name: Seq<char>,
    pub params: Seq<char>,
    pub ret: Seq<char>,
    pub body: Seq<char>,
}

impl View for FunctionDecl {
    type V = DeclView;

    open spec fn view(&self) -> DeclView {
        DeclView {
            prologue: self.func_prologue@,
            visibility: self.pub_str@,
            asynchrony: self.async_str@,
            name: self.fn_name@,
            params: self.fn_decl@,
            ret: self.ret_decl@,
            body: self.fn_body@,
        }
    }
}

/// A declaration has a name and a parameter list.
pub open spec fn decl_wf(v: DeclView) -> bool {
    v.name.len() > 0 && v.params.len() > 0
}

/// The text of group `i`, empty for a group that did not take part.
pub open spec fn group_at(g: Seq<Option<Seq<char>>>, i: int) -> Seq<char> {
    match g[i] {
        Some(t) => t,
        None => Seq::empty(),
    }
}

/// A return clause without its two-character arrow, trimmed.
pub open spec fn strip_arrow(t: Seq<char>) -> Seq<char> {
    if t.len() >= 2 {
        trim(t.subrange(2, t.len() as int), false)
    } else {
        Seq::empty()
    }
}

/// The parts read off the eight groups of a declaration match.
pub open spec fn decl_of_groups(g: Seq<Option<Seq<char>>>) -> DeclView {
    DeclView {
        prologue: trim(group_at(g, 1), true),
        visibility: trim(group_at(g, 2), false),
        asynchrony: trim(group_at(g, 3), false),
        name: trim(group_at(g, 4), false),
        params: trim(group_at(g, 5), false),
        ret: strip_arrow(group_at(g, 6)),
        body: trim(group_at(g, 7), false),
    }
}

/// The groups are those of a declaration: eight, with the prologue, name,
/// parameter and body groups present.
pub open spec fn groups_complete(g: Seq<Option<Seq<char>>>) -> bool {
    g.len() == 8 && g[1] is Some && g[4] is Some && g[5] is Some && g[7] is Some
}

/// The declaration that the capture groups `g` describe, if any.
pub open spec fn parse_groups(g: Seq<Option<Seq<char>>>) -> Result<DeclView, DeclError> {
    if groups_complete(g) && decl_wf(decl_of_groups(g)) {
        Ok(decl_of_groups(g))
    } else {
        Err(DeclError::Malformed)
    }
}

/// The declaration that the text `s` holds, if any.
pub open spec fn parse_declaration(s: Seq<char>) -> Result<DeclView, DeclError> {
    match regex_captures_of(DECLARATION_PATTERN@, s) {
        None => Err(DeclError::NoMatch),
        Some(g) => parse_groups(g),
    }
}

/// ` -> ret`, or nothing when there is no return type.
pub open spec fn arrow_part(ret: Seq<char>) -> Seq<char> {
    if ret.len() == 0 {
        Seq::empty()
    } else {
        seq![' ', '-', '>', ' '] + ret
    }
}

/// The signature line: prologue, qualifiers, `fn`, name, parameters, return
/// clause and the opening brace.
pub open spec fn prelude_of(v: DeclView) -> Seq<char> {
    v.prologue + spaced(v.visibility) + spaced(v.asynchrony) + seq!['f', 'n', ' '] + v.name
        + v.params + arrow_part(v.ret) + seq![' ', '{']
}

/// The closing line of a function.
pub open spec fn end_of() -> Seq<char> {
    seq!['}']
}

/// The whole function with the signature of `v` around `body`.
pub open spec fn rebuilt(v: DeclView, body: Seq<char>) -> Seq<char> {
    prelude_of(v) + seq!['\n'] + body + seq!['\n'] + end_of()
}

/// A declaration whose match has no visibility, asynchrony or return group
/// has those parts empty; with all three absent, its signature line is the
/// prologue, `fn `, the name, the parameters and ` {`, with no separator or
/// arrow left behind.
pub proof fn lemma_absent_groups_give_empty_parts(g: Seq<Option<Seq<char>>>)
    requires
        parse_groups(g) is Ok,
    ensures
        g[2] is None ==> decl_of_groups(g).visibility.len() == 0,
        g[3] is None ==> decl_of_groups(g).asynchrony.len() == 0,
        g[6] is None ==> decl_of_groups(g).ret.len() == 0,
        g[2] is None && g[3] is None && g[6] is None ==> prelude_of(decl_of_groups(g))
            == decl_of_groups(g).prologue + seq!['f', 'n', ' '] + decl_of_groups(g).name
            + decl_of_groups(g).params + seq![' ', '{'],
{
    let v = decl_of_groups(g);
    if g[2] is None {
        assert(trim_start(Seq::<char>::empty(), false) == Seq::<char>::empty());
        assert(trim_end(Seq::<char>::empty(), false) == Seq::<char>::empty());
    }
    if g[2] is None && g[3] is None && g[6] is None {
        assert(prelude_of(v) =~= v.prologue + seq!['f', 'n', ' '] + v.name + v.params + seq![
            ' ',
            '{',
        ]);
    }
}

/// An empty visibility, asynchrony or return type contributes nothing to the
/// signature line: neither the token nor its separating space or arrow.
pub proof fn lemma_signature_omits_empty_parts(v: DeclView)
    ensures
        v.visibility.len() == 0 ==> prelude_of(v) == v.prologue + spaced(v.asynchrony) + seq![
            'f',
            'n',
            ' ',
        ] + v.name + v.params + arrow_part(v.ret) + seq![' ', '{'],
        v.asynchrony.len() == 0 ==> prelude_of(v) == v.prologue + spaced(v.visibility) + seq![
            'f',
            'n',
            ' ',
        ] + v.name + v.params + arrow_part(v.ret) + seq![' ', '{'],
        v.ret.len() == 0 ==> prelude_of(v) == v.prologue + spaced(v.visibility) + spaced(
            v.asynchrony,
        ) + seq!['f', 'n', ' '] + v.name + v.params + seq![' ', '{'],
{
    let f = seq!['f', 'n', ' '];
    let b = seq![' ', '{'];
    if v.visibility.len() == 0 {
        assert(prelude_of(v) =~= v.prologue + spaced(v.asynchrony) + f + v.name + v.params
            + arrow_part(v.ret) + b);
    }
    if v.asynchrony.len() == 0 {
        assert(prelude_of(v) =~= v.prologue + spaced(v.visibility) + f + v.name + v.params
            + arrow_part(v.ret) + b);
    }
    if v.ret.len() == 0 {
        assert(prelude_of(v) =~= v.prologue + spaced(v.visibility) + spaced(v.asynchrony) + f
            + v.name + v.params + b);
    }
}

/// The prologue opens the signature line unchanged, and so opens the rebuilt
/// function whatever its new body.
pub proof fn lemma_signature_keeps_prologue(v: DeclView, body: Seq<char>)
    ensures
        prelude_of(v).subrange(0, v.prologue.len() as int) == v.prologue,
        rebuilt(v, body).subrange(0, v.prologue.len() as int) == v.prologue,
{
    assert(prelude_of(v).subrange(0, v.prologue.len() as int) =~= v.prologue);
    assert(rebuilt(v, body).subrange(0, v.prologue.len() as int) =~= v.prologue);
}

/// Rebuilding a function around a new body keeps the signature line whole,
/// places the new body verbatim on the lines after it, and closes the function.
pub proof fn lemma_rebuilt_keeps_signature(v: DeclView, body: Seq<char>)
    ensures
        ({
            let r = rebuilt(v, body);
            let n = prelude_of(v).len() as int;
            &&& r.len() == n + body.len() + 3
            &&& r.subrange(0, n) == prelude_of(v)
            &&& r[n] == '\n'
            &&& r.subrange(n + 1, n + 1 + body.len()) == body
            &&& r.subrange(n + 1 + body.len(), r.len() as int) == seq!['\n', '}']
        }),
{
    let r = rebuilt(v, body);
    let n = prelude_of(v).len() as int;
    assert(r.subrange(0, n) =~= prelude_of(v));
    assert(r.subrange(n + 1, n + 1 + body.len()) =~= body);
    assert(r.subrange(n + 1 + body.len(), r.len() as int) =~= seq!['\n', '}']);
}

/// The group for an optional qualifier as it stands in a signature line:
/// the qualifier and its separating space, or no group when it is empty.
pub open spec fn qualifier_group(q: Seq<char>) -> Option<Seq<char>> {
    if q.len() == 0 {
        None
    } else {
        Some(q.push(' '))
    }
}

/// The group for a return type as it stands in a signature line: the arrow,
/// a space and the type, or no group when there is no return type.
pub open spec fn return_group(ret: Seq<char>) -> Option<Seq<char>> {
    if ret.len() == 0 {
        None
    } else {
        Some(seq!['-', '>', ' '] + ret)
    }
}

/// The capture groups of the signature line of `v`, closed by `}`, split at
/// the boundaries at which the signature line joins the parts.
pub open spec fn signature_groups(v: DeclView) -> Seq<Option<Seq<char>>> {
    seq![
        Some(prelude_of(v) + end_of()),
        Some(v.prologue),
        qualifier_group(v.visibility),
        qualifier_group(v.asynchrony),
        Some(v.name),
        Some(v.params),
        return_group(v.ret),
        Some(Seq::<char>::empty()),
    ]
}

/// Every part that a match yields has nothing left to trim.
proof fn lemma_parts_trim_fixed(g: Seq<Option<Seq<char>>>)
    ensures
        is_trim_fixed(decl_of_groups(g).prologue, true),
        is_trim_fixed(decl_of_groups(g).visibility, false),
        is_trim_fixed(decl_of_groups(g).asynchrony, false),
        is_trim_fixed(decl_of_groups(g).name, false),
        is_trim_fixed(decl_of_groups(g).params, false),
        is_trim_fixed(decl_of_groups(g).ret, false),
{
    lemma_trim_is_fixed(group_at(g, 1), true);
    lemma_trim_is_fixed(group_at(g, 2), false);
    lemma_trim_is_fixed(group_at(g, 3), false);
    lemma_trim_is_fixed(group_at(g, 4), false);
    lemma_trim_is_fixed(group_at(g, 5), false);
    let r = group_at(g, 6);
    if r.len() >= 2 {
        lemma_trim_is_fixed(r.subrange(2, r.len() as int), false);
    }
}

/// Reading a declaration back from its own signature line, split where that
/// line joins the parts, gives every part of the declaration unchanged and an
/// empty body.
pub proof fn lemma_signature_round_trip(g: Seq<Option<Seq<char>>>)
    requires
        parse_groups(g) is Ok,
    ensures
        ({
            let v = decl_of_groups(g);
            parse_groups(signature_groups(v)) == Ok::<DeclView, DeclError>(
                DeclView {
                    prologue: v.prologue,
                    visibility: v.visibility,
                    asynchrony: v.asynchrony,
                    name: v.name,
                    params: v.params,
                    ret: v.ret,
                    body: Seq::empty(),
                },
            )
        }),
{
    let v = decl_of_groups(g);
    let h = signature_groups(v);
    lemma_parts_trim_fixed(g);
    lemma_trim_fixed(v.prologue, true);
    lemma_trim_fixed(v.name, false);
    lemma_trim_fixed(v.params, false);
    lemma_trim_fixed(Seq::<char>::empty(), false);
    assert(trim_start(Seq::<char>::empty(), false) == Seq::<char>::empty());
    assert(trim_end(Seq::<char>::empty(), false) == Seq::<char>::empty());
    if v.visibility.len() > 0 {
        lemma_trim_padded(v.visibility);
    }
    if v.asynchrony.len() > 0 {
        lemma_trim_padded(v.asynchrony);
    }
    if v.ret.len() > 0 {
        let r = seq!['-', '>', ' '] + v.ret;
        assert(r.subrange(2, r.len() as int) =~= seq![' '] + v.ret);
        lemma_trim_padded(v.ret);
    }
    let w = decl_of_groups(h);
    assert(w.prologue == v.prologue);
    assert(w.visibility == v.visibility);
    assert(w.asynchrony == v.asynchrony);
    assert(w.ret == v.ret);
    assert(groups_complete(h));
}

fn group_text(groups: &Vec<Option<String>>, i: usize) -> (r: &str)
    requires
        i < groups@.len(),
    ensures
        r@ == group_at(group_texts(groups@), i as int),
{
    match &groups[i] {
        Some(t) => t.as_str(),
        None => {
            proof {
                reveal_strlit("");
            }
            ""
        },
    }
}

fn strip_arrow_text(t: &str) -> (r: String)
    ensures
        r@ == strip_arrow(t@),
{
    let n = t.unicode_len();
    if n >= 2 {
        trim_text(t.substring_char(2, n), false)
    } else {
        String::new()
    }
}

impl FunctionDecl {
    /// Builds the declaration from the capture groups of a declaration
    /// match, group 0 first.
    pub fn from_groups(groups: &Vec<Option<String>>) -> (r: Result<FunctionDecl, DeclError>)
        ensures
            (match r {
                Ok(d) => parse_groups(group_texts(groups@)) == Ok::<DeclView, DeclError>(d@),
                Err(e) => parse_groups(group_texts(groups@)) == Err::<DeclView, DeclError>(e),
            }),
    {
        let ghost g = group_texts(groups@);
        if groups.len() != 8 || groups[1].is_none() || groups[4].is_none() || groups[5].is_none()
            || groups[7].is_none() {
            return Err(DeclError::Malformed);
        }
        assert(groups_complete(g));
        let func_prologue = trim_text(group_text(groups, 1), true);
        let pub_str = trim_text(group_text(groups, 2), false);
        let async_str = trim_text(group_text(groups, 3), false);
        let fn_name = trim_text(group_text(groups, 4), false);
        let fn_decl = trim_text(group_text(groups, 5), false);
        let ret_decl = strip_arrow_text(group_text(groups, 6));
        let fn_body = trim_text(group_text(groups, 7), false);
        if fn_name.unicode_len() == 0 || fn_decl.unicode_len() == 0 {
            return Err(DeclError::Malformed);
        }
        let d = FunctionDecl { func_prologue, pub_str, async_str, fn_name, fn_decl, ret_decl, fn_body };
        assert(d@ == decl_of_groups(g));
        Ok(d)
    }

    /// Decomposes the text of a declaration, or says why it is not one.
    pub fn try_from_string(in_str: String) -> (r: Result<FunctionDecl, DeclError>)
        ensures
            (match r {
                Ok(d) => parse_declaration(in_str@) == Ok::<DeclView, DeclError>(d@),
                Err(e) => parse_declaration(in_str@) == Err::<DeclView, DeclError>(e),
            }),
    {
        match regex_captures(DECLARATION_PATTERN, in_str.as_str()) {
            None => Err(DeclError::NoMatch),
            Some(groups) => match Self::from_groups(&groups) {
                Ok(_) => Ok(Self::from_string(in_str)),
                Err(e) => Err(e),
            },
        }
    }

    /// Decomposes the text of a declaration; the text must be one.
    pub fn from_string(in_str: String) -> (r: FunctionDecl)
        requires
            parse_declaration(in_str@) is Ok,
        ensures
            parse_declaration(in_str@) == Ok::<DeclView, DeclError>(r@),
            decl_wf(r@),
    {
        match regex_captures(DECLARATION_PATTERN, in_str.as_str()) {
            None => unreached(),
            Some(groups) => match Self::from_groups(&groups) {
                Ok(d) => d,
                Err(_) => unreached(),
            },
        }
    }

    /// The signature line, up to and including the opening brace.
    pub fn func_prelude(&self) -> (r: String)
        ensures
            r@ == prelude_of(self@),
    {
        let mut r = String::from_str(self.func_prologue.as_str());
        let vis = add_space_or_empty(self.pub_str.as_str());
        r.append(vis.as_str());
        let asy = add_space_or_empty(self.async_str.as_str());
        r.append(asy.as_str());
        r.append("fn ");
        r.append(self.fn_name.as_str());
        r.append(self.fn_decl.as_str());
        if self.ret_decl.unicode_len() > 0 {
            r.append(" -> ");
            r.append(self.ret_decl.as_str());
        }
        r.append(" {");
        proof {
            reveal_strlit("fn ");
            reveal_strlit(" -> ");
            reveal_strlit(" {");
            assert(r@ =~= prelude_of(self@));
        }
        r
    }

    /// The closing line of the function.
    pub fn func_end(&self) -> (r: String)
        ensures
            r@ == end_of(),
    {
        proof {
            reveal_strlit("}");
        }
        let r = String::from_str("}");
        assert(r@ =~= end_of());
        r
    }

    /// The whole function: this declaration's signature around `body_add`.
    pub fn into_func_body(self, body_add: String) -> (r: String)
        ensures
            r@ == rebuilt(self@, body_add@),
    {
        let mut r = self.func_prelude();
        r.append("\n");
        r.append(body_add.as_str());
        r.append("\n");
        let end = self.func_end();
        r.append(end.as_str());
        proof {
            reveal_strlit("\n");
            assert(r@ =~= rebuilt(self@, body_add@));
        }
        r
    }
}

} // verus!
