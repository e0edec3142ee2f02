//! The Python frontend: reads dataclasses, `TypedDict`s, enums and
//! annotated functions from the text of a module, line by line.

use vstd::prelude::*;
use crate::chars::{
    before_first, before_first_chars, chars_view, contains, contains_chars, copy_chars, eq_chars, ends_with_chars, find,
    find_char, find_chars, lemma_find, lines, lines_of, starts_with_chars, sub_chars, trim, trim_chars, trim_end, trim_start,
};
use crate::ir::{kebab, SpecIRType, IRType};
use crate::validation::funcs_view;
use crate::text::{chars_of, string_of, is_alpha, is_alnum, is_upper, is_space};

verus! {

// ---------------------------------------------------------------------------
// Splitting on commas
// ---------------------------------------------------------------------------

/// The parts finished, the bracket depth, and the part in progress after
/// reading `s`, where a comma outside brackets ends a part.
pub open spec fn comma_scan(s: Seq<char>) -> (Seq<Seq<char>>, int, Seq<char>)
    decreases s.len(),
{
    if s.len() == 0 {
        (Seq::empty(), 0, Seq::empty())
    } else {
        let (parts, depth, cur) = comma_scan(s.drop_last());
        let c = s.last();
        if c == '[' || c == '(' {
            (parts, depth + 1, cur.push(c))
        } else if c == ']' || c == ')' {
            (parts, depth - 1, cur.push(c))
        } else if c == ',' && depth == 0 {
            (parts.push(trim(cur)), depth, Seq::empty())
        } else {
            (parts, depth, cur.push(c))
        }
    }
}

/// The trimmed parts of `s` between commas that are not inside brackets or
/// parentheses; a last part that is blank is dropped.
pub open spec fn split_commas(s: Seq<char>) -> Seq<Seq<char>> {
    let (parts, _depth, cur) = comma_scan(s);
    if trim(cur).len() > 0 { parts.push(trim(cur)) } else { parts }
}

/// The total length of `parts`, counting one more for each part.
pub open spec fn parts_measure(parts: Seq<Seq<char>>) -> nat
    decreases parts.len(),
{
    if parts.len() == 0 {
        0
    } else {
        parts_measure(parts.drop_last()) + parts.last().len() + 1
    }
}

proof fn lemma_trim_start_len(s: Seq<char>)
    ensures
        trim_start(s).len() <= s.len(),
    decreases s.len(),
{
    if s.len() > 0 && is_space(s[0]) {
        lemma_trim_start_len(s.subrange(1, s.len() as int));
    }
}

proof fn lemma_trim_end_len(s: Seq<char>)
    ensures
        trim_end(s).len() <= s.len(),
    decreases s.len(),
{
    if s.len() > 0 && is_space(s.last()) {
        lemma_trim_end_len(s.drop_last());
    }
}

/// Trimming never lengthens.
pub proof fn lemma_trim_len(s: Seq<char>)
    ensures
        trim(s).len() <= s.len(),
{
    lemma_trim_start_len(s);
    lemma_trim_end_len(trim_start(s));
}

proof fn lemma_comma_scan_len(s: Seq<char>)
    ensures
        parts_measure(comma_scan(s).0) + comma_scan(s).2.len() <= s.len(),
    decreases s.len(),
{
    if s.len() > 0 {
        lemma_comma_scan_len(s.drop_last());
        let (parts, depth, cur) = comma_scan(s.drop_last());
        lemma_trim_len(cur);
        assert(parts.push(trim(cur)).drop_last() =~= parts);
    }
}

/// The parts of a split measure at most one more than the text.
pub proof fn lemma_split_commas_len(s: Seq<char>)
    ensures
        parts_measure(split_commas(s)) <= s.len() + 1,
{
    lemma_comma_scan_len(s);
    let (parts, depth, cur) = comma_scan(s);
    lemma_trim_len(cur);
    assert(parts.push(trim(cur)).drop_last() =~= parts);
}

/// The models of a sequence of character vectors are their contents.
proof fn lemma_chars_view_push(v: Seq<Vec<char>>, x: Vec<char>)
    ensures
        chars_view(v.push(x)) == chars_view(v).push(x@),
{
    assert(chars_view(v.push(x)) =~= chars_view(v).push(x@));
}

/// Splits `s` on the commas that are not inside brackets or parentheses.
pub fn split_by_comma(s: &Vec<char>) -> (r: Vec<Vec<char>>)
    ensures
        chars_view(r@) == split_commas(s@),
{
    let mut parts: Vec<Vec<char>> = Vec::new();
    let mut depth: i128 = 0;
    let mut current: Vec<char> = Vec::new();
    let mut i: usize = 0;
    while i < s.len()
        invariant
            i <= s@.len(),
            -(i as int) <= depth <= i as int,
            comma_scan(s@.subrange(0, i as int)) == (chars_view(parts@), depth as int, current@),
        decreases s.len() - i,
    {
        let ghost q = s@.subrange(0, i + 1);
        assert(q.drop_last() =~= s@.subrange(0, i as int));
        assert(q.last() == s@[i as int]);
        let c = s[i];
        if c == '[' || c == '(' {
            depth = depth + 1;
            current.push(c);
        } else if c == ']' || c == ')' {
            depth = depth - 1;
            current.push(c);
        } else if c == ',' && depth == 0 {
            let t = trim_chars(&current);
            proof {
                lemma_chars_view_push(parts@, t);
            }
            parts.push(t);
            current = Vec::new();
            assert(current@ =~= Seq::<char>::empty());
        } else {
            current.push(c);
        }
        i = i + 1;
    }
    assert(s@.subrange(0, s@.len() as int) =~= s@);
    let t = trim_chars(&current);
    if t.len() > 0 {
        proof {
            lemma_chars_view_push(parts@, t);
        }
        parts.push(t);
    }
    parts
}

// ---------------------------------------------------------------------------
// Type annotations
// ---------------------------------------------------------------------------

/// Whether `t` is `open` + something + `]`.
pub open spec fn bracketed(t: Seq<char>, open: Seq<char>) -> bool {
    open.is_prefix_of(t) && "]"@.is_suffix_of(t) && t.len() > open.len()
}

/// `t` without its first `n` and its last character.
pub open spec fn inside(t: Seq<char>, n: int) -> Seq<char> {
    t.subrange(n, t.len() - 1)
}

/// Wraps a mapped type in an option.
pub open spec fn opt_of(x: Option<SpecIRType>) -> Option<SpecIRType> {
    match x {
        Some(t) => Some(SpecIRType::Option(Box::new(t))),
        None => None,
    }
}

/// Whether every character of `t` is alphanumeric or `_`.
pub open spec fn is_word(t: Seq<char>) -> bool {
    forall|i: int| 0 <= i < t.len() ==> #[trigger] is_alnum(t[i]) || t[i] == '_'
}

/// The IR type that a Python annotation stands for, and whether it marks an
/// optional value; `(None, false)` when it is not supported.
pub open spec fn py_type(ty: Seq<char>) -> (Option<SpecIRType>, bool)
    decreases ty.len(), 1nat,
{
    let t = trim(ty);
    proof {
        lemma_trim_len(ty);
    }
    if t == "str"@ || t == "string"@ {
        (Some(SpecIRType::String), false)
    } else if t == "int"@ {
        (Some(SpecIRType::S64), false)
    } else if t == "float"@ {
        (Some(SpecIRType::F64), false)
    } else if t == "bool"@ {
        (Some(SpecIRType::Bool), false)
    } else if t == "bytes"@ {
        (Some(SpecIRType::List(Box::new(SpecIRType::U8))), false)
    } else if t == "None"@ {
        (Some(SpecIRType::Bool), false)
    } else if bracketed(t, "Optional["@) {
        proof {
            reveal_strlit("Optional[");
            lemma_trim_len(ty);
            assert(inside(t, 9).len() < ty.len());
        }
        let x = opt_of(py_type(inside(t, 9)).0);
        (x, x is Some)
    } else {
        let k = find(t, "|"@);
        proof {
            lemma_find(t, "|"@);
        }
        let one_bar = k >= 0 && find(t.subrange(k + 1, t.len() as int), "|"@) < 0;
        let a = trim(t.subrange(0, k));
        let b = trim(t.subrange(k + 1, t.len() as int));
        if one_bar && (b == "None"@ || a == "None"@) {
            proof {
                reveal_strlit("|");
                lemma_trim_len(ty);
                lemma_find(t, "|"@);
                lemma_trim_len(t.subrange(0, k));
                lemma_trim_len(t.subrange(k + 1, t.len() as int));
                assert(a.len() < ty.len());
                assert(b.len() < ty.len());
            }
            let x = opt_of(py_type(if b == "None"@ { a } else { b }).0);
            (x, x is Some)
        } else if bracketed(t, "list["@) || bracketed(t, "List["@) {
            proof {
                reveal_strlit("list[");
                reveal_strlit("List[");
                lemma_trim_len(ty);
                assert(inside(t, 5).len() < ty.len());
            }
            (match py_type(inside(t, 5)).0 {
                Some(x) => Some(SpecIRType::List(Box::new(x))),
                None => None,
            }, false)
        } else {
            let tuple_types = if bracketed(t, "tuple["@) || bracketed(t, "Tuple["@) {
                proof {
                    reveal_strlit("tuple[");
                    reveal_strlit("Tuple[");
                    lemma_trim_len(ty);
                    lemma_split_commas_len(inside(t, 6));
                }
                py_types(split_commas(inside(t, 6)))
            } else {
                None
            };
            let dict_type = if bracketed(t, "dict["@) || bracketed(t, "Dict["@) {
                proof {
                    reveal_strlit("dict[");
                    reveal_strlit("Dict[");
                    lemma_trim_len(ty);
                    lemma_split_commas_len(inside(t, 5));
                }
                dict_key_value(split_commas(inside(t, 5)))
            } else {
                None
            };
            if tuple_types is Some {
                (Some(SpecIRType::Tuple(tuple_types->0)), false)
            } else if dict_type is Some {
                (dict_type, false)
            } else if t.len() > 0 && is_upper(t[0]) && is_word(t) {
                (Some(SpecIRType::Named(t)), false)
            } else {
                (None, false)
            }
        }
    }
}

/// The types that the parts of a tuple annotation stand for, if all are supported.
pub open spec fn py_types(parts: Seq<Seq<char>>) -> Option<Seq<SpecIRType>>
    decreases parts_measure(parts), 2nat,
{
    if parts.len() == 0 {
        Some(Seq::empty())
    } else {
        proof {
            lemma_trim_len(parts.last());
        }
        match py_types(parts.drop_last()) {
            None => None,
            Some(xs) => match py_type(trim(parts.last())).0 {
                Some(x) => Some(xs.push(x)),
                None => None,
            },
        }
    }
}

/// The list of key–value pairs that a two-part dictionary annotation stands for.
pub open spec fn dict_key_value(parts: Seq<Seq<char>>) -> Option<SpecIRType>
    decreases parts_measure(parts), 2nat,
{
    if parts.len() == 2 {
        proof {
            lemma_trim_len(parts[0]);
            lemma_trim_len(parts[1]);
            assert(parts.drop_last().drop_last().len() == 0);
            assert(parts.drop_last().last() == parts[0]);
            assert(parts.last() == parts[1]);
            assert(parts_measure(parts) == parts_measure(parts.drop_last()) + parts[1].len() + 1);
            assert(parts_measure(parts.drop_last()) == parts_measure(parts.drop_last().drop_last()) + parts[0].len() + 1);
        }
        match (py_type(trim(parts[0])).0, py_type(trim(parts[1])).0) {
            (Some(k), Some(v)) => Some(SpecIRType::List(Box::new(SpecIRType::Tuple(seq![k, v])))),
            _ => None,
        }
    } else {
        None
    }
}


/// Each part contributes its length and one more to the measure.
proof fn lemma_measure_elem(parts: Seq<Seq<char>>, i: int)
    requires
        0 <= i < parts.len(),
    ensures
        parts[i].len() + 1 <= parts_measure(parts),
    decreases parts.len(),
{
    if i < parts.len() - 1 {
        assert(parts.drop_last()[i] == parts[i]);
        lemma_measure_elem(parts.drop_last(), i);
    }
}

/// A text that begins with `p` begins with the first character of `p`.
pub proof fn lemma_prefix_first(t: Seq<char>, p: Seq<char>)
    requires
        p.is_prefix_of(t),
        p.len() > 0,
    ensures
        t[0] == p[0],
{
    assert(t.subrange(0, p.len() as int)[0] == t[0]);
}

/// Whether `t` holds exactly the characters of `lit`.
pub fn is_lit(t: &Vec<char>, lit: &str) -> (r: bool)
    ensures
        r == (t@ == lit@),
{
    let l = chars_of(lit);
    eq_chars(t, &l)
}

/// Whether `t` begins with `lit`.
pub fn starts_lit(t: &Vec<char>, lit: &str) -> (r: bool)
    ensures
        r == lit@.is_prefix_of(t@),
{
    let l = chars_of(lit);
    starts_with_chars(t, &l)
}

/// Whether `t` ends with `lit`.
pub fn ends_lit(t: &Vec<char>, lit: &str) -> (r: bool)
    ensures
        r == lit@.is_suffix_of(t@),
{
    let l = chars_of(lit);
    ends_with_chars(t, &l)
}

/// Whether `t` contains `lit`.
pub fn contains_lit(t: &Vec<char>, lit: &str) -> (r: bool)
    ensures
        r == contains(t@, lit@),
{
    let l = chars_of(lit);
    contains_chars(t, &l)
}

/// The model of an optional IR type.
pub open spec fn opt_ty_view(o: Option<IRType>) -> Option<SpecIRType> {
    match o {
        Some(t) => Some(t@),
        None => None,
    }
}

fn bracketed_exec(t: &Vec<char>, open: &str) -> (r: bool)
    ensures
        r == bracketed(t@, open@),
{
    starts_lit(t, open) && ends_lit(t, "]") && t.len() > open.unicode_len()
}

fn is_word_exec(t: &Vec<char>) -> (r: bool)
    ensures
        r == is_word(t@),
{
    let mut i: usize = 0;
    while i < t.len()
        invariant
            i <= t@.len(),
            forall|k: int| 0 <= k < i ==> #[trigger] is_alnum(t@[k]) || t@[k] == '_',
        decreases t.len() - i,
    {
        if !(crate::text::char_is_alphanumeric(t[i]) || t[i] == '_') {
            return false;
        }
        i = i + 1;
    }
    true
}

fn wrap_option(o: Option<IRType>) -> (r: Option<IRType>)
    ensures
        opt_ty_view(r) == opt_of(opt_ty_view(o)),
{
    match o {
        Some(t) => Some(IRType::Option(Box::new(t))),
        None => None,
    }
}

/// The IR type that a Python annotation stands for, and whether it marks an
/// optional value; `(None, false)` when it is not supported.
pub fn parse_python_type(ty: &Vec<char>) -> (r: (Option<IRType>, bool))
    ensures
        (opt_ty_view(r.0), r.1) == py_type(ty@),
    decreases ty@.len(),
{
    let t = trim_chars(ty);
    proof {
        lemma_trim_len(ty@);
    }
    if is_lit(&t, "str") || is_lit(&t, "string") {
        return (Some(IRType::String), false);
    }
    if is_lit(&t, "int") {
        return (Some(IRType::S64), false);
    }
    if is_lit(&t, "float") {
        return (Some(IRType::F64), false);
    }
    if is_lit(&t, "bool") {
        return (Some(IRType::Bool), false);
    }
    if is_lit(&t, "bytes") {
        let inner = IRType::U8;
        assert(inner@ == SpecIRType::U8);
        return (Some(IRType::List(Box::new(inner))), false);
    }
    if is_lit(&t, "None") {
        return (Some(IRType::Bool), false);
    }
    proof {
        reveal_strlit("Optional[");
        reveal_strlit("list[");
        reveal_strlit("List[");
        reveal_strlit("tuple[");
        reveal_strlit("Tuple[");
        reveal_strlit("dict[");
        reveal_strlit("Dict[");
        reveal_strlit("|");
    }
    if bracketed_exec(&t, "Optional[") {
        let inner = sub_chars(&t, 9, t.len() - 1);
        let (x, _) = parse_python_type(&inner);
        let w = wrap_option(x);
        let optional = w.is_some();
        return (w, optional);
    }
    let bar = find_char(&t, '|');
    proof {
        lemma_find(t@, "|"@);
        assert(seq!['|'] =~= "|"@);
    }
    if let Some(k) = bar {
        let tl = t.len();
        let after = sub_chars(&t, k + 1, tl);
        let second = find_char(&after, '|');
        if second.is_none() {
            let a_raw = sub_chars(&t, 0, k);
            let a = trim_chars(&a_raw);
            let b = trim_chars(&after);
            let b_none = is_lit(&b, "None");
            if b_none || is_lit(&a, "None") {
                proof {
                    lemma_trim_len(a_raw@);
                    lemma_trim_len(after@);
                }
                let inner = if b_none { a } else { b };
                let (x, _) = parse_python_type(&inner);
                let w = wrap_option(x);
                let optional = w.is_some();
                return (w, optional);
            }
        }
    }
    if bracketed_exec(&t, "list[") || bracketed_exec(&t, "List[") {
        let inner = sub_chars(&t, 5, t.len() - 1);
        let (x, _) = parse_python_type(&inner);
        let r = match x {
            Some(x) => Some(IRType::List(Box::new(x))),
            None => None,
        };
        return (r, false);
    }
    let ghost tuple_spec = if bracketed(t@, "tuple["@) || bracketed(t@, "Tuple["@) {
        py_types(split_commas(inside(t@, 6)))
    } else {
        None
    };
    let ghost dict_spec = if bracketed(t@, "dict["@) || bracketed(t@, "Dict["@) {
        dict_key_value(split_commas(inside(t@, 5)))
    } else {
        None
    };
    if bracketed_exec(&t, "tuple[") || bracketed_exec(&t, "Tuple[") {
        proof {
            if bracketed(t@, "tuple["@) {
                lemma_prefix_first(t@, "tuple["@);
            } else {
                lemma_prefix_first(t@, "Tuple["@);
            }
        }
        assert(t@[0] == 't' || t@[0] == 'T');
        let inner = sub_chars(&t, 6, t.len() - 1);
        let parts = split_by_comma(&inner);
        let ghost pv = chars_view(parts@);
        proof {
            lemma_split_commas_len(inner@);
        }
        let mut types: Vec<IRType> = Vec::new();
        let mut all = true;
        let mut i: usize = 0;
        while i < parts.len()
            invariant
                i <= parts@.len(),
                pv == chars_view(parts@),
                parts_measure(pv) <= inner@.len() + 1,
                inner@.len() + 6 < ty@.len(),
                all ==> py_types(pv.subrange(0, i as int)) == Some(crate::ir::tys_view(types@)),
                !all ==> py_types(pv.subrange(0, i as int)) is None,
            decreases parts.len() - i,
        {
            let ghost q = pv.subrange(0, i + 1);
            assert(q.drop_last() =~= pv.subrange(0, i as int));
            assert(q.last() == parts@[i as int]@);
            proof {
                lemma_measure_elem(pv, i as int);
                lemma_trim_len(parts@[i as int]@);
            }
            let part = trim_chars(&parts[i]);
            let (x, _) = parse_python_type(&part);
            match x {
                Some(x) => {
                    if all {
                        let ghost tb = types@;
                        types.push(x);
                        assert(types@.subrange(0, types@.len() - 1) =~= tb);
                    }
                },
                None => {
                    all = false;
                },
            }
            i = i + 1;
        }
        assert(pv.subrange(0, pv.len() as int) =~= pv);
        if all {
            return (Some(IRType::Tuple(types)), false);
        }
        assert(tuple_spec is None);
    } else {
        assert(tuple_spec is None);
    }
    if bracketed_exec(&t, "dict[") || bracketed_exec(&t, "Dict[") {
        proof {
            if bracketed(t@, "dict["@) {
                lemma_prefix_first(t@, "dict["@);
            } else {
                lemma_prefix_first(t@, "Dict["@);
            }
        }
        assert(t@[0] == 'd' || t@[0] == 'D');
        let inner = sub_chars(&t, 5, t.len() - 1);
        let parts = split_by_comma(&inner);
        proof {
            lemma_split_commas_len(inner@);
        }
        assert(chars_view(parts@) == split_commas(inside(t@, 5)));
        if parts.len() == 2 {
            let ghost pv = chars_view(parts@);
            proof {
                lemma_measure_elem(pv, 0);
                lemma_measure_elem(pv, 1);
                lemma_trim_len(pv[0]);
                lemma_trim_len(pv[1]);
            }
            let p0 = trim_chars(&parts[0]);
            let p1 = trim_chars(&parts[1]);
            let (k, _) = parse_python_type(&p0);
            let (v, _) = parse_python_type(&p1);
            if let Some(k) = k {
                if let Some(v) = v {
                    let ghost kspec = k@;
                    let ghost vspec = v@;
                    let mut kv: Vec<IRType> = Vec::new();
                    kv.push(k);
                    kv.push(v);
                    proof {
                        crate::ir::lemma_tys_view(kv@);
                        assert(crate::ir::tys_view(kv@) =~= seq![kspec, vspec]);
                    }
                    let tup = IRType::Tuple(kv);
                    assert(tup@ == SpecIRType::Tuple(seq![kspec, vspec]));
                    assert(dict_spec == Some(SpecIRType::List(Box::new(SpecIRType::Tuple(seq![kspec, vspec])))));
                    return (Some(IRType::List(Box::new(tup))), false);
                }
            }
        }
        assert(dict_spec is None);
    } else {
        assert(dict_spec is None);
    }
    if t.len() > 0 && crate::text::char_is_uppercase(t[0]) && is_word_exec(&t) {
        return (Some(IRType::Named(string_of(&t))), false);
    }
    (None, false)
}


// ---------------------------------------------------------------------------
// Classes and their bodies
// ---------------------------------------------------------------------------

/// The position of the first `(` or `:` in `rest` at or after `i`, or its length.
pub open spec fn name_end(rest: Seq<char>, i: int) -> int
    decreases rest.len() - i,
{
    if i < 0 || i >= rest.len() {
        rest.len() as int
    } else if rest[i] == '(' || rest[i] == ':' {
        i
    } else {
        name_end(rest, i + 1)
    }
}

proof fn lemma_name_end(rest: Seq<char>, i: int)
    requires
        0 <= i,
    ensures
        (i <= rest.len() ==> i <= name_end(rest, i)) && name_end(rest, i) <= rest.len(),
        name_end(rest, i) >= 0,
    decreases rest.len() - i,
{
    if i < rest.len() && !(rest[i] == '(' || rest[i] == ':') {
        lemma_name_end(rest, i + 1);
    }
}

/// The class name declared by `class Name(...):` or `class Name:`.
pub open spec fn class_name(line: Seq<char>) -> Option<Seq<char>> {
    let l = trim(line);
    if !"class "@.is_prefix_of(l) {
        None
    } else {
        let rest = l.subrange(6, l.len() as int);
        let name = trim(rest.subrange(0, name_end(rest, 0)));
        if name.len() == 0 { None } else { Some(name) }
    }
}

/// The class name declared on `line`, if it declares one.
pub fn parse_class_name(line: &Vec<char>) -> (r: Option<Vec<char>>)
    ensures
        match r {
            Some(n) => class_name(line@) == Some(n@),
            None => class_name(line@) is None,
        },
{
    let l = trim_chars(line);
    if !starts_lit(&l, "class ") {
        return None;
    }
    proof {
        reveal_strlit("class ");
    }
    let rest = sub_chars(&l, 6, l.len());
    let mut end: usize = 0;
    while end < rest.len() && rest[end] != '(' && rest[end] != ':'
        invariant
            end <= rest@.len(),
            name_end(rest@, 0) == name_end(rest@, end as int),
        decreases rest.len() - end,
    {
        end = end + 1;
    }
    let raw = sub_chars(&rest, 0, end);
    let name = trim_chars(&raw);
    if name.len() == 0 {
        None
    } else {
        Some(name)
    }
}

/// How a line of a class body reads: blank or a comment, the end of the
/// body (a line that is not indented), or a line of the body.
pub enum BodyLine {
    Skip,
    End,
    Body,
}

/// Whether `line` starts with a space or a tab.
pub open spec fn is_indented(line: Seq<char>) -> bool {
    line.len() > 0 && (line[0] == ' ' || line[0] == '\t')
}

/// How `line` reads inside a class body.
pub open spec fn body_line(line: Seq<char>) -> BodyLine {
    let t = trim(line);
    if t.len() == 0 || t[0] == '#' {
        BodyLine::Skip
    } else if !is_indented(line) {
        BodyLine::End
    } else {
        BodyLine::Body
    }
}

/// The field declared by a trimmed body line `name: type [= default]`, if it
/// names one with a supported type.
pub open spec fn field_of_line(t: Seq<char>) -> Option<crate::ir::SpecFieldDef> {
    let c = find(t, ":"@);
    if c < 0 {
        None
    } else {
        let name = trim(t.subrange(0, c));
        if contains(name, " "@) || name.len() == 0 || !(is_alpha(name[0]) || name[0] == '_') {
            None
        } else {
            let ty_str = trim(before_first(trim(t.subrange(c + 1, t.len() as int)), '='));
            match py_type(ty_str) {
                (Some(x), optional) => Some(crate::ir::SpecFieldDef { name: name, wit_name: kebab(name), ty: x, optional: optional }),
                _ => None,
            }
        }
    }
}

/// The fields declared by the class body that starts at line `i`; the body
/// ends at a line that is not indented or that starts a `def` or a `class`.
pub open spec fn fields_from(lines: Seq<Seq<char>>, i: int) -> Seq<crate::ir::SpecFieldDef>
    decreases lines.len() - i,
{
    if i < 0 || i >= lines.len() {
        Seq::empty()
    } else {
        let t = trim(lines[i]);
        match body_line(lines[i]) {
            BodyLine::Skip => fields_from(lines, i + 1),
            BodyLine::End => Seq::empty(),
            BodyLine::Body => if "def "@.is_prefix_of(t) || "class "@.is_prefix_of(t) {
                Seq::empty()
            } else {
                match field_of_line(t) {
                    Some(f) => seq![f] + fields_from(lines, i + 1),
                    None => fields_from(lines, i + 1),
                }
            },
        }
    }
}

/// The enum case declared by a trimmed body line `NAME = value`, if any.
pub open spec fn case_of_line(t: Seq<char>) -> Option<Seq<char>> {
    let k = find(t, "="@);
    if k < 0 {
        None
    } else {
        let name = trim(t.subrange(0, k));
        if name.len() > 0 && is_word(name) {
            Some(kebab(crate::text::unicode_lowercase(name)))
        } else {
            None
        }
    }
}

/// The enum cases declared by the class body that starts at line `i`.
pub open spec fn cases_from(lines: Seq<Seq<char>>, i: int) -> Seq<Seq<char>>
    decreases lines.len() - i,
{
    if i < 0 || i >= lines.len() {
        Seq::empty()
    } else {
        match body_line(lines[i]) {
            BodyLine::Skip => cases_from(lines, i + 1),
            BodyLine::End => Seq::empty(),
            BodyLine::Body => match case_of_line(trim(lines[i])) {
                Some(c) => seq![c] + cases_from(lines, i + 1),
                None => cases_from(lines, i + 1),
            },
        }
    }
}

fn body_line_exec(line: &Vec<char>) -> (r: (BodyLine, Vec<char>))
    ensures
        r.0 == body_line(line@),
        r.1@ == trim(line@),
{
    let t = trim_chars(line);
    if t.len() == 0 || t[0] == '#' {
        (BodyLine::Skip, t)
    } else if !(line.len() > 0 && (line[0] == ' ' || line[0] == '\t')) {
        (BodyLine::End, t)
    } else {
        (BodyLine::Body, t)
    }
}

fn field_of_line_exec(t: &Vec<char>) -> (r: Option<crate::ir::FieldDef>)
    ensures
        match r {
            Some(f) => field_of_line(t@) == Some(f@),
            None => field_of_line(t@) is None,
        },
{
    proof {
        reveal_strlit(":");
        assert(seq![':'] =~= ":"@);
    }
    let c = match find_char(t, ':') {
        Some(c) => c,
        None => return None,
    };
    let raw = sub_chars(t, 0, c);
    let name = trim_chars(&raw);
    proof {
        reveal_strlit(" ");
    }
    if contains_lit(&name, " ") || name.len() == 0 || !(crate::text::char_is_alphabetic(name[0]) || name[0] == '_') {
        return None;
    }
    let tl = t.len();
    let rest_raw = sub_chars(t, c + 1, tl);
    let rest = trim_chars(&rest_raw);
    let before = before_first_chars(&rest, '=');
    let ty_str = trim_chars(&before);
    let (ty, optional) = parse_python_type(&ty_str);
    match ty {
        Some(x) => {
            let n = string_of(&name);
            Some(crate::ir::FieldDef { wit_name: crate::ir::to_kebab_case(n.as_str()), name: n, ty: x, optional: optional })
        },
        None => None,
    }
}

/// The fields declared by the class body that starts at line `start`.
pub fn parse_annotated_fields(lines: &Vec<Vec<char>>, start: usize) -> (r: Vec<crate::ir::FieldDef>)
    ensures
        super::typescript::fields_view(r@) == fields_from(chars_view(lines@), start as int),
{
    let ghost lv = chars_view(lines@);
    let mut fields: Vec<crate::ir::FieldDef> = Vec::new();
    let mut i = start;
    assert(super::typescript::fields_view(fields@) =~= Seq::<crate::ir::SpecFieldDef>::empty());
    while i < lines.len()
        invariant
            lv == chars_view(lines@),
            lv.len() == lines@.len(),
            start <= i,
            fields_from(lv, start as int) == super::typescript::fields_view(fields@) + fields_from(lv, i as int),
        ensures
            fields_from(lv, start as int) == super::typescript::fields_view(fields@),
        decreases lines.len() - i,
    {
        assert(lv[i as int] == lines@[i as int]@);
        let (kind, t) = body_line_exec(&lines[i]);
        match kind {
            BodyLine::Skip => {},
            BodyLine::End => {
                assert(fields_from(lv, i as int) =~= Seq::<crate::ir::SpecFieldDef>::empty());
                assert(super::typescript::fields_view(fields@) + fields_from(lv, i as int) =~= super::typescript::fields_view(fields@));
                break;
            },
            BodyLine::Body => {
                proof {
                    reveal_strlit("def ");
                    reveal_strlit("class ");
                }
                if starts_lit(&t, "def ") || starts_lit(&t, "class ") {
                    assert(fields_from(lv, i as int) =~= Seq::<crate::ir::SpecFieldDef>::empty());
                    assert(super::typescript::fields_view(fields@) + fields_from(lv, i as int) =~= super::typescript::fields_view(fields@));
                    break;
                }
                if let Some(f) = field_of_line_exec(&t) {
                    let ghost fb = fields@;
                    fields.push(f);
                    assert(super::typescript::fields_view(fields@) =~= super::typescript::fields_view(fb).push(f@));
                    assert(super::typescript::fields_view(fb) + fields_from(lv, i as int)
                        =~= super::typescript::fields_view(fields@) + fields_from(lv, i + 1));
                }
            },
        }
        i = i + 1;
    }
    fields
}

fn case_of_line_exec(t: &Vec<char>) -> (r: Option<String>)
    ensures
        match r {
            Some(c) => case_of_line(t@) == Some(c@),
            None => case_of_line(t@) is None,
        },
{
    proof {
        reveal_strlit("=");
        assert(seq!['='] =~= "="@);
    }
    let k = match find_char(t, '=') {
        Some(k) => k,
        None => return None,
    };
    let raw = sub_chars(t, 0, k);
    let name = trim_chars(&raw);
    if name.len() > 0 && is_word_exec(&name) {
        let n = string_of(&name);
        let lower = crate::text::str_to_lowercase(n.as_str());
        Some(crate::ir::to_kebab_case(lower.as_str()))
    } else {
        None
    }
}

/// The enum cases declared by the class body that starts at line `start`.
pub fn parse_enum_cases(lines: &Vec<Vec<char>>, start: usize) -> (r: Vec<String>)
    ensures
        crate::text::strings_view(r@) == cases_from(chars_view(lines@), start as int),
{
    let ghost lv = chars_view(lines@);
    let mut cases: Vec<String> = Vec::new();
    let mut i = start;
    assert(crate::text::strings_view(cases@) =~= Seq::<Seq<char>>::empty());
    while i < lines.len()
        invariant
            lv == chars_view(lines@),
            lv.len() == lines@.len(),
            start <= i,
            cases_from(lv, start as int) == crate::text::strings_view(cases@) + cases_from(lv, i as int),
        ensures
            cases_from(lv, start as int) == crate::text::strings_view(cases@),
        decreases lines.len() - i,
    {
        assert(lv[i as int] == lines@[i as int]@);
        let (kind, t) = body_line_exec(&lines[i]);
        match kind {
            BodyLine::Skip => {},
            BodyLine::End => {
                assert(cases_from(lv, i as int) =~= Seq::<Seq<char>>::empty());
                assert(crate::text::strings_view(cases@) + cases_from(lv, i as int) =~= crate::text::strings_view(cases@));
                break;
            },
            BodyLine::Body => {
                if let Some(c) = case_of_line_exec(&t) {
                    let ghost cb = cases@;
                    cases.push(c);
                    assert(crate::text::strings_view(cases@) =~= crate::text::strings_view(cb).push(c@));
                    assert(crate::text::strings_view(cb) + cases_from(lv, i as int)
                        =~= crate::text::strings_view(cases@) + cases_from(lv, i + 1));
                }
            },
        }
        i = i + 1;
    }
    cases
}


// ---------------------------------------------------------------------------
// Type definitions
// ---------------------------------------------------------------------------

/// The first line at or after `j` that is not a decorator.
pub open spec fn skip_decorators(lines: Seq<Seq<char>>, j: int) -> int
    decreases lines.len() - j,
{
    if 0 <= j < lines.len() && "@"@.is_prefix_of(trim(lines[j])) {
        skip_decorators(lines, j + 1)
    } else {
        j
    }
}

pub proof fn lemma_skip_decorators(lines: Seq<Seq<char>>, j: int)
    ensures
        skip_decorators(lines, j) >= j,
    decreases lines.len() - j,
{
    if 0 <= j < lines.len() && "@"@.is_prefix_of(trim(lines[j])) {
        lemma_skip_decorators(lines, j + 1);
    }
}

/// Whether the trimmed line `t` starts a class that derives from an enum base.
pub open spec fn is_enum_class(t: Seq<char>) -> bool {
    "class "@.is_prefix_of(t) && (contains(t, "(Enum)"@) || contains(t, "(str, Enum)"@) || contains(t, "(IntEnum)"@)
        || contains(t, "(StrEnum)"@))
}

/// Whether the trimmed line `t` starts a `TypedDict` class.
pub open spec fn is_typed_dict_class(t: Seq<char>) -> bool {
    "class "@.is_prefix_of(t) && contains(t, "TypedDict"@)
}

/// The span of line `line` (counted from 1) of `file`.
pub open spec fn line_span(file: Seq<char>, line: int) -> crate::ir::SpecSourceSpan {
    super::typescript::explicit_span(file, line as u64)
}

/// A record declared on line `line`.
pub open spec fn record_at(name: Seq<char>, fields: Seq<crate::ir::SpecFieldDef>, file: Seq<char>, line: int) -> crate::ir::SpecTypeDef {
    crate::ir::SpecTypeDef::Record(crate::ir::SpecRecordDef { name: name, wit_name: kebab(name), fields: fields, source: line_span(file, line) })
}

/// The record that a `@dataclass` decorator on line `i` declares from the
/// class after it, with the line where reading goes on.
pub open spec fn dataclass_def(lines: Seq<Seq<char>>, i: int, file: Seq<char>) -> Option<(crate::ir::SpecTypeDef, int)> {
    let j = skip_decorators(lines, i + 1);
    if 0 <= i < lines.len() && trim(lines[i]) == "@dataclass"@ && j < lines.len() && class_name(lines[j]) is Some {
        Some((record_at(class_name(lines[j])->0, fields_from(lines, j + 1), file, j + 1), j + 1))
    } else {
        None
    }
}

/// The definitions that a class line `i` declares: a `TypedDict` class
/// declares a record, and an enum class with at least one case an enum.
pub open spec fn line_defs(lines: Seq<Seq<char>>, i: int, file: Seq<char>) -> Seq<crate::ir::SpecTypeDef> {
    let t = trim(lines[i]);
    let typed = if is_typed_dict_class(t) && class_name(t) is Some {
        seq![record_at(class_name(t)->0, fields_from(lines, i + 1), file, i + 1)]
    } else {
        Seq::empty()
    };
    let cases = cases_from(lines, i + 1);
    let en = if is_enum_class(t) && class_name(t) is Some && cases.len() > 0 {
        seq![crate::ir::SpecTypeDef::Enum(crate::ir::SpecEnumDef {
            name: class_name(t)->0,
            wit_name: kebab(class_name(t)->0),
            cases: cases,
            source: line_span(file, i + 1),
        })]
    } else {
        Seq::empty()
    };
    typed + en
}

/// The definitions found from line `i` on.
pub open spec fn typedefs_from(lines: Seq<Seq<char>>, i: int, file: Seq<char>) -> Seq<crate::ir::SpecTypeDef>
    decreases lines.len() - i,
{
    if i < 0 || i >= lines.len() {
        Seq::empty()
    } else {
        proof {
            lemma_skip_decorators(lines, i + 1);
        }
        match dataclass_def(lines, i, file) {
            Some((td, next)) => seq![td] + typedefs_from(lines, next, file),
            None => line_defs(lines, i, file) + typedefs_from(lines, i + 1, file),
        }
    }
}

/// The models of a sequence of definitions.
pub open spec fn typedefs_view(v: Seq<crate::ir::TypeDef>) -> Seq<crate::ir::SpecTypeDef> {
    v.map_values(|t: crate::ir::TypeDef| t@)
}

fn line_span_exec(file: &str, line: usize) -> (r: crate::ir::SourceSpan)
    ensures
        r@ == line_span(file@, line as int),
{
    crate::ir::SourceSpan { file: crate::text::owned(file), line: line as u64, confidence: crate::ir::Confidence::Explicit }
}

fn record_exec(name: &Vec<char>, fields: Vec<crate::ir::FieldDef>, file: &str, line: usize) -> (r: crate::ir::TypeDef)
    ensures
        r@ == record_at(name@, super::typescript::fields_view(fields@), file@, line as int),
{
    let n = string_of(name);
    let r = crate::ir::TypeDef::Record(crate::ir::RecordDef {
        wit_name: crate::ir::to_kebab_case(n.as_str()),
        name: n,
        fields: fields,
        source: line_span_exec(file, line),
    });
    assert(fields@.map_values(|f: crate::ir::FieldDef| f@) =~= super::typescript::fields_view(fields@));
    r
}

fn push_def(out: &mut Vec<crate::ir::TypeDef>, td: crate::ir::TypeDef)
    ensures
        typedefs_view(final(out)@) == typedefs_view(old(out)@).push(td@),
{
    out.push(td);
    assert(typedefs_view(out@) =~= typedefs_view(old(out)@).push(td@));
}

/// The first line at or after `i + 1` that is not a decorator.
fn skip_decorators_exec(lines: &Vec<Vec<char>>, i: usize) -> (j: usize)
    requires
        i < lines@.len(),
    ensures
        i < j <= lines@.len(),
        skip_decorators(chars_view(lines@), i + 1) == j,
{
    let ghost lv = chars_view(lines@);
    proof {
        reveal_strlit("@");
    }
    let n = lines.len();
    let mut j = i + 1;
    loop
        invariant
            lv == chars_view(lines@),
            lv.len() == lines@.len(),
            i < j <= lines@.len(),
            skip_decorators(lv, i + 1) == skip_decorators(lv, j as int),
        ensures
            i < j <= lines@.len(),
            skip_decorators(lv, i + 1) == j,
        decreases lines.len() - j,
    {
        if j >= lines.len() {
            break;
        }
        assert(lv[j as int] == lines@[j as int]@);
        let tj = trim_chars(&lines[j]);
        if !starts_lit(&tj, "@") {
            break;
        }
        j = j + 1;
    }
    j
}

/// Reads the definitions that line `i` starts, when it is not a dataclass
/// decorator followed by a class.
fn class_line_defs(lines: &Vec<Vec<char>>, i: usize, file: &str, out: &mut Vec<crate::ir::TypeDef>)
    requires
        i < lines@.len(),
    ensures
        typedefs_view(final(out)@) == typedefs_view(old(out)@) + line_defs(chars_view(lines@), i as int, file@),
{
    let ghost lv = chars_view(lines@);
    let n = lines.len();
    assert(lv[i as int] == lines@[i as int]@);
    let t = trim_chars(&lines[i]);
    let ghost before = typedefs_view(out@);
    let cn = parse_class_name(&t);
    let is_class = starts_lit(&t, "class ");
    let ghost typed: Seq<crate::ir::SpecTypeDef> = Seq::empty();
    if is_class && contains_lit(&t, "TypedDict") {
        if let Some(name) = &cn {
            let fields = parse_annotated_fields(lines, i + 1);
            let td = record_exec(name, fields, file, i + 1);
            proof {
                typed = seq![td@];
            }
            push_def(out, td);
        }
    }
    let ghost en: Seq<crate::ir::SpecTypeDef> = Seq::empty();
    let is_enum = is_class && (contains_lit(&t, "(Enum)") || contains_lit(&t, "(str, Enum)")
        || contains_lit(&t, "(IntEnum)") || contains_lit(&t, "(StrEnum)"));
    if is_enum {
        if let Some(name) = &cn {
            let cases = parse_enum_cases(lines, i + 1);
            if cases.len() > 0 {
                let n = string_of(name);
                let td = crate::ir::TypeDef::Enum(crate::ir::EnumDef {
                    wit_name: crate::ir::to_kebab_case(n.as_str()),
                    name: n,
                    cases: cases,
                    source: line_span_exec(file, i + 1),
                });
                proof {
                    en = seq![td@];
                }
                push_def(out, td);
            }
        }
    }
    assert(typedefs_view(out@) =~= before + typed + en);
}

/// The type definitions declared in `lines` of `file`.
pub fn parse_type_defs(lines: &Vec<Vec<char>>, file: &str) -> (r: Vec<crate::ir::TypeDef>)
    ensures
        typedefs_view(r@) == typedefs_from(chars_view(lines@), 0, file@),
{
    let ghost lv = chars_view(lines@);
    let mut out: Vec<crate::ir::TypeDef> = Vec::new();
    let mut i: usize = 0;
    assert(typedefs_view(out@) =~= Seq::<crate::ir::SpecTypeDef>::empty());
    while i < lines.len()
        invariant
            lv == chars_view(lines@),
            lv.len() == lines@.len(),
            typedefs_from(lv, 0, file@) == typedefs_view(out@) + typedefs_from(lv, i as int, file@),
        decreases lines.len() - i,
    {
        assert(lv[i as int] == lines@[i as int]@);
        let t = trim_chars(&lines[i]);
        let j = skip_decorators_exec(lines, i);
        let ghost before = typedefs_view(out@);
        if is_lit(&t, "@dataclass") && j < lines.len() {
            assert(lv[j as int] == lines@[j as int]@);
            if let Some(name) = parse_class_name(&lines[j]) {
                let fields = parse_annotated_fields(lines, j + 1);
                let td = record_exec(&name, fields, file, j + 1);
                push_def(&mut out, td);
                assert(before + typedefs_from(lv, i as int, file@) =~= typedefs_view(out@) + typedefs_from(lv, j + 1, file@));
                i = j + 1;
                continue;
            }
        }
        class_line_defs(lines, i, file, &mut out);
        assert(before + typedefs_from(lv, i as int, file@) =~= typedefs_view(out@) + typedefs_from(lv, i + 1, file@));
        i = i + 1;
    }
    assert(typedefs_from(lv, i as int, file@) =~= Seq::<crate::ir::SpecTypeDef>::empty());
    out
}


// ---------------------------------------------------------------------------
// Function signatures
// ---------------------------------------------------------------------------

/// How a character changes the bracket depth.
pub open spec fn depth_step(c: char) -> int {
    if c == '(' || c == '[' {
        1
    } else if c == ')' || c == ']' {
        -1
    } else {
        0
    }
}

/// The bracket depth after the first `n` characters of `s`.
pub open spec fn depth_at(s: Seq<char>, n: int) -> int
    decreases n,
{
    if n <= 0 || n > s.len() {
        0
    } else {
        depth_at(s, n - 1) + depth_step(s[n - 1])
    }
}

/// Whether a signature is complete: its last non-blank character is a `:`
/// outside brackets.
pub open spec fn sig_done(sig: Seq<char>) -> bool {
    let t = trim(sig);
    t.len() > 0 && t.last() == ':' && depth_at(t, t.len() - 1) == 0
}

/// Whether the signature `sig` is complete.
pub fn sig_complete(sig: &Vec<char>) -> (r: bool)
    ensures
        r == sig_done(sig@),
{
    let t = trim_chars(sig);
    let n = t.len();
    if n == 0 || t[n - 1] != ':' {
        return false;
    }
    let mut depth: i128 = 0;
    let mut i: usize = 0;
    while i < n - 1
        invariant
            n == t@.len(),
            n > 0,
            i <= n - 1,
            -(i as int) <= depth <= i as int,
            depth == depth_at(t@, i as int),
        decreases n - 1 - i,
    {
        let c = t[i];
        if c == '(' || c == '[' {
            depth = depth + 1;
        } else if c == ')' || c == ']' {
            depth = depth - 1;
        }
        i = i + 1;
    }
    depth == 0
}

/// The signature that starts as `sig` once the lines from `j` on are joined
/// to it, each trimmed and after a space, until it is complete; with the
/// line after the last one joined.
pub open spec fn sig_from(lines: Seq<Seq<char>>, sig: Seq<char>, j: int) -> (Seq<char>, int)
    decreases lines.len() - j,
{
    if !sig_done(sig) && 0 <= j < lines.len() {
        sig_from(lines, sig + " "@ + trim(lines[j]), j + 1)
    } else {
        (sig, j)
    }
}

pub proof fn lemma_sig_from(lines: Seq<Seq<char>>, sig: Seq<char>, j: int)
    ensures
        sig_from(lines, sig, j).1 >= j,
        j <= lines.len() ==> sig_from(lines, sig, j).1 <= lines.len(),
        sig.is_prefix_of(sig_from(lines, sig, j).0),
    decreases lines.len() - j,
{
    if !sig_done(sig) && 0 <= j < lines.len() {
        let next = sig + " "@ + trim(lines[j]);
        lemma_sig_from(lines, next, j + 1);
        assert(sig.is_prefix_of(next)) by {
            assert(next.subrange(0, sig.len() as int) =~= sig);
        }
        let fin = sig_from(lines, next, j + 1).0;
        assert(fin.subrange(0, sig.len() as int) =~= next.subrange(0, sig.len() as int)) by {
            assert(fin.subrange(0, next.len() as int) == next);
            assert forall|k: int| 0 <= k < sig.len() implies fin.subrange(0, sig.len() as int)[k] == next.subrange(0, sig.len() as int)[k] by {
                assert(fin.subrange(0, next.len() as int)[k] == fin[k]);
            }
        }
    }
}

/// The position of the bracket that closes the one open at or before `k`,
/// with `depth` brackets open at `k`, or -1.
pub open spec fn close_from(s: Seq<char>, k: int, depth: int) -> int
    decreases s.len() - k,
{
    if k < 0 || k >= s.len() {
        -1
    } else {
        let c = s[k];
        if c == '(' || c == '[' {
            close_from(s, k + 1, depth + 1)
        } else if c == ')' || c == ']' {
            if depth - 1 == 0 { k } else { close_from(s, k + 1, depth - 1) }
        } else {
            close_from(s, k + 1, depth)
        }
    }
}

proof fn lemma_close_from(s: Seq<char>, k: int, depth: int)
    requires
        0 <= k,
    ensures
        close_from(s, k, depth) == -1 || (k <= close_from(s, k, depth) < s.len()),
    decreases s.len() - k,
{
    if k < s.len() {
        lemma_close_from(s, k + 1, depth + 1);
        lemma_close_from(s, k + 1, depth - 1);
        lemma_close_from(s, k + 1, depth);
    }
}

/// `s` without the colons at its end.
pub open spec fn trim_end_colons(s: Seq<char>) -> Seq<char>
    decreases s.len(),
{
    if s.len() > 0 && s.last() == ':' { trim_end_colons(s.drop_last()) } else { s }
}

/// The parameter list and the return annotation of a signature
/// `def name(params) -> ret:`, or why it cannot be split.
pub open spec fn split_sig(sig: Seq<char>) -> Result<(Seq<char>, Option<Seq<char>>), Seq<char>> {
    let open = find(sig, "("@);
    if open < 0 {
        Err("no opening paren in function signature"@)
    } else {
        let close = close_from(sig, open, 0);
        if close < 0 {
            Err("no closing paren in function signature"@)
        } else {
            let after = sig.subrange(close + 1, sig.len() as int);
            let a = find(after, "->"@);
            Ok((
                sig.subrange(open + 1, close),
                if a >= 0 { Some(trim(trim_end_colons(after.subrange(a + 2, after.len() as int)))) } else { None },
            ))
        }
    }
}

/// Splits a signature into its parameter list and its return annotation.
pub fn split_signature(sig: &Vec<char>) -> (r: Result<(Vec<char>, Option<Vec<char>>), String>)
    ensures
        match r {
            Ok((p, ret)) => split_sig(sig@) == Ok::<(Seq<char>, Option<Seq<char>>), Seq<char>>((p@, match ret {
                Some(x) => Some(x@),
                None => None,
            })),
            Err(m) => split_sig(sig@) == Err::<(Seq<char>, Option<Seq<char>>), Seq<char>>(m@),
        },
{
    proof {
        reveal_strlit("(");
        reveal_strlit("->");
        assert(seq!['('] =~= "("@);
    }
    let n = sig.len();
    let open = match find_char(sig, '(') {
        Some(o) => o,
        None => return Err(crate::text::owned("no opening paren in function signature")),
    };
    let mut depth: i128 = 0;
    let mut k = open;
    let mut close: Option<usize> = None;
    while k < n
        invariant_except_break
            close is None,
            close_from(sig@, open as int, 0) == close_from(sig@, k as int, depth as int),
        invariant
            n == sig@.len(),
            open <= k <= n,
            -((k - open) as int) <= depth <= (k - open) as int,
        ensures
            match close {
                Some(c) => close_from(sig@, open as int, 0) == c as int && c < n,
                None => close_from(sig@, open as int, 0) == -1,
            },
        decreases n - k,
    {
        let c = sig[k];
        if c == '(' || c == '[' {
            depth = depth + 1;
        } else if c == ')' || c == ']' {
            depth = depth - 1;
            if depth == 0 {
                close = Some(k);
                break;
            }
        }
        k = k + 1;
    }
    let close = match close {
        Some(c) => c,
        None => return Err(crate::text::owned("no closing paren in function signature")),
    };
    proof {
        assert(sig@[open as int] == '(');
        assert(close_from(sig@, open as int, 0) == close_from(sig@, open + 1, 1));
        lemma_close_from(sig@, open + 1, 1);
    }
    let params = sub_chars(sig, open + 1, close);
    let after = sub_chars(sig, close + 1, n);
    let arrow = chars_of("->");
    let ret = match find_chars(&after, &arrow) {
        Some(a) => {
            proof {
                lemma_find(after@, "->"@);
            }
            let mut tail = sub_chars(&after, a + 2, after.len());
            let ghost t0 = tail@;
            while tail.len() > 0 && tail[tail.len() - 1] == ':'
                invariant
                    trim_end_colons(t0) == trim_end_colons(tail@),
                decreases tail.len(),
            {
                let ghost tb = tail@;
                tail.pop();
                assert(tail@ =~= tb.drop_last());
            }
            Some(trim_chars(&tail))
        },
        None => None,
    };
    Ok((params, ret))
}

// ---------------------------------------------------------------------------
// Parameters
// ---------------------------------------------------------------------------

/// `file:line`, where a problem with a signature is reported.
pub open spec fn location(file: Seq<char>, line: u64) -> Seq<char> {
    file + ":"@ + crate::text::decimal(line as nat)
}

/// The parameters declared by the comma-separated `parts` of a parameter
/// list, skipping blanks, `self` and `cls`, or the message for the first
/// parameter without a supported annotation.
pub open spec fn params_from(parts: Seq<Seq<char>>, file: Seq<char>, line: u64) -> Result<Seq<crate::ir::SpecParamDef>, Seq<char>>
    decreases parts.len(),
{
    if parts.len() == 0 {
        Ok(Seq::empty())
    } else {
        match params_from(parts.drop_last(), file, line) {
            Err(e) => Err(e),
            Ok(acc) => {
                let part = trim(parts.last());
                if part.len() == 0 || part == "self"@ || part == "cls"@ {
                    Ok(acc)
                } else {
                    let p = trim(before_first(part, '='));
                    let c = find(p, ":"@);
                    if c >= 0 {
                        let name = trim(p.subrange(0, c));
                        match py_type(trim(p.subrange(c + 1, p.len() as int))).0 {
                            Some(t) => Ok(acc.push(crate::ir::SpecParamDef { name: name, wit_name: kebab(name), ty: t })),
                            None => Err(location(file, line) + ": unsupported/missing type on param `"@ + name + "`"@),
                        }
                    } else {
                        Err(location(file, line) + ": parameter `"@ + p + "` has no type annotation"@)
                    }
                }
            },
        }
    }
}

proof fn lemma_params_prefix(parts: Seq<Seq<char>>, file: Seq<char>, line: u64, k: int)
    requires
        0 <= k <= parts.len(),
        params_from(parts.subrange(0, k), file, line) is Err,
    ensures
        params_from(parts, file, line) == params_from(parts.subrange(0, k), file, line),
    decreases parts.len() - k,
{
    if k < parts.len() {
        assert(parts.subrange(0, k + 1).drop_last() =~= parts.subrange(0, k));
        lemma_params_prefix(parts, file, line, k + 1);
    } else {
        assert(parts.subrange(0, k) =~= parts);
    }
}

fn location_exec(file: &str, line: u64) -> (r: String)
    ensures
        r@ == location(file@, line),
{
    let mut r = crate::text::owned(file);
    r.append(":");
    let d = crate::text::u64_to_decimal(line);
    r.append(d.as_str());
    r
}

/// Reads one part of a parameter list: `None` when it declares nothing.
fn parse_param(part_raw: &Vec<char>, file: &str, line: u64) -> (r: Result<Option<crate::ir::ParamDef>, String>)
    ensures
        ({
            let part = trim(part_raw@);
            let p = trim(before_first(part, '='));
            let c = find(p, ":"@);
            let name = trim(p.subrange(0, c));
            if part.len() == 0 || part == "self"@ || part == "cls"@ {
                r == Ok::<Option<crate::ir::ParamDef>, String>(None)
            } else if c >= 0 {
                match py_type(trim(p.subrange(c + 1, p.len() as int))).0 {
                    Some(t) => r matches Ok(Some(x)) && x@ == (crate::ir::SpecParamDef { name: name, wit_name: kebab(name), ty: t }),
                    None => r matches Err(m) && m@ == location(file@, line) + ": unsupported/missing type on param `"@ + name + "`"@,
                }
            } else {
                r matches Err(m) && m@ == location(file@, line) + ": parameter `"@ + p + "` has no type annotation"@
            }
        }),
{
    let part = trim_chars(part_raw);
    if part.len() == 0 || is_lit(&part, "self") || is_lit(&part, "cls") {
        return Ok(None);
    }
    let before = before_first_chars(&part, '=');
    let p = trim_chars(&before);
    proof {
        reveal_strlit(":");
        assert(seq![':'] =~= ":"@);
    }
    let pl = p.len();
    match find_char(&p, ':') {
        Some(c) => {
            let name_raw = sub_chars(&p, 0, c);
            let name = trim_chars(&name_raw);
            let ty_raw = sub_chars(&p, c + 1, pl);
            let ty_str = trim_chars(&ty_raw);
            let (ty, _) = parse_python_type(&ty_str);
            let n = string_of(&name);
            match ty {
                Some(t) => Ok(Some(crate::ir::ParamDef { wit_name: crate::ir::to_kebab_case(n.as_str()), name: n, ty: t })),
                None => {
                    let mut m = location_exec(file, line);
                    m.append(": unsupported/missing type on param `");
                    m.append(n.as_str());
                    m.append("`");
                    Err(m)
                },
            }
        },
        None => {
            let mut m = location_exec(file, line);
            m.append(": parameter `");
            let ps = string_of(&p);
            m.append(ps.as_str());
            m.append("` has no type annotation");
            Err(m)
        },
    }
}

/// The parameters declared by the parameter list `params_str` of the
/// signature on line `line` of `file`.
pub fn parse_params(params_str: &Vec<char>, file: &str, line: u64) -> (r: Result<Vec<crate::ir::ParamDef>, String>)
    ensures
        match r {
            Ok(v) => params_from(split_commas(params_str@), file@, line)
                == Ok::<Seq<crate::ir::SpecParamDef>, Seq<char>>(super::typescript::params_view(v@)),
            Err(m) => params_from(split_commas(params_str@), file@, line) == Err::<Seq<crate::ir::SpecParamDef>, Seq<char>>(m@),
        },
{
    let parts = split_by_comma(params_str);
    let ghost pv = chars_view(parts@);
    let mut out: Vec<crate::ir::ParamDef> = Vec::new();
    let mut i: usize = 0;
    assert(super::typescript::params_view(out@) =~= Seq::<crate::ir::SpecParamDef>::empty());
    while i < parts.len()
        invariant
            pv == chars_view(parts@),
            pv == split_commas(params_str@),
            i <= parts@.len(),
            params_from(pv.subrange(0, i as int), file@, line)
                == Ok::<Seq<crate::ir::SpecParamDef>, Seq<char>>(super::typescript::params_view(out@)),
        decreases parts.len() - i,
    {
        let ghost q = pv.subrange(0, i + 1);
        assert(q.drop_last() =~= pv.subrange(0, i as int));
        assert(q.last() == parts@[i as int]@);
        match parse_param(&parts[i], file, line) {
            Ok(None) => {},
            Ok(Some(x)) => {
                let ghost ob = out@;
                out.push(x);
                assert(super::typescript::params_view(out@) =~= super::typescript::params_view(ob).push(x@));
            },
            Err(m) => {
                proof {
                    assert(params_from(q, file@, line) == Err::<Seq<crate::ir::SpecParamDef>, Seq<char>>(m@));
                    lemma_params_prefix(pv, file@, line, i + 1);
                }
                return Err(m);
            },
        }
        i = i + 1;
    }
    assert(pv.subrange(0, pv.len() as int) =~= pv);
    Ok(out)
}

// ---------------------------------------------------------------------------
// Docstrings
// ---------------------------------------------------------------------------

/// The text of a multi-line docstring collected so far as `doc`, read on
/// from line `k` up to the line that ends with `quote`: lines are trimmed and
/// joined with spaces.
pub open spec fn doc_scan(lines: Seq<Seq<char>>, k: int, doc: Seq<char>, quote: Seq<char>) -> Seq<char>
    decreases lines.len() - k,
{
    if k < 0 || k >= lines.len() {
        doc
    } else {
        let t = trim(lines[k]);
        if quote.is_suffix_of(t) {
            let part = t.subrange(0, t.len() - 3);
            if part.len() > 0 { doc + " "@ + part } else { doc }
        } else {
            doc_scan(lines, k + 1, (if doc.len() > 0 { doc + " "@ } else { doc }) + t, quote)
        }
    }
}

/// Three double quotes.
pub open spec fn triple_double() -> Seq<char> {
    seq!['"', '"', '"']
}

/// Three single quotes.
pub open spec fn triple_single() -> Seq<char> {
    seq!['\'', '\'', '\'']
}

/// The docstring that starts on line `start`, if there is one that is not blank.
pub open spec fn docstring(lines: Seq<Seq<char>>, start: int) -> Option<Seq<char>> {
    if start < 0 || start >= lines.len() {
        None
    } else {
        let first = trim(lines[start]);
        let dq = triple_double();
        let sq = triple_single();
        if !(dq.is_prefix_of(first) || sq.is_prefix_of(first)) {
            None
        } else {
            let quote = if dq.is_prefix_of(first) { dq } else { sq };
            let start_str = first.subrange(3, first.len() as int);
            if quote.is_suffix_of(start_str) && start_str.len() > 0 {
                Some(trim(start_str.subrange(0, start_str.len() - 3)))
            } else {
                let d = trim(doc_scan(lines, start + 1, start_str, quote));
                if d.len() == 0 { None } else { Some(d) }
            }
        }
    }
}

fn push_all(dst: &mut Vec<char>, src: &Vec<char>)
    ensures
        final(dst)@ == old(dst)@ + src@,
{
    let mut i: usize = 0;
    while i < src.len()
        invariant
            i <= src@.len(),
            dst@ == old(dst)@ + src@.subrange(0, i as int),
        decreases src.len() - i,
    {
        dst.push(src[i]);
        i = i + 1;
        assert(dst@ =~= old(dst)@ + src@.subrange(0, i as int));
    }
    assert(src@.subrange(0, src@.len() as int) =~= src@);
}

fn triple(c: char) -> (r: Vec<char>)
    ensures
        r@ == seq![c, c, c],
{
    let mut r: Vec<char> = Vec::new();
    r.push(c);
    r.push(c);
    r.push(c);
    assert(r@ =~= seq![c, c, c]);
    r
}

/// The docstring that starts on line `start` of `lines`.
pub fn extract_docstring(lines: &Vec<Vec<char>>, start: usize) -> (r: Option<String>)
    ensures
        match r {
            Some(d) => docstring(chars_view(lines@), start as int) == Some(d@),
            None => docstring(chars_view(lines@), start as int) is None,
        },
{
    let ghost lv = chars_view(lines@);
    if start >= lines.len() {
        return None;
    }
    assert(lv[start as int] == lines@[start as int]@);
    let first = trim_chars(&lines[start]);
    let dq = triple('"');
    let sq = triple('\'');
    let quote = if starts_with_chars(&first, &dq) {
        dq
    } else if starts_with_chars(&first, &sq) {
        sq
    } else {
        return None;
    };
    let start_str = sub_chars(&first, 3, first.len());
    if ends_with_chars(&start_str, &quote) && start_str.len() > 0 {
        let inner = sub_chars(&start_str, 0, start_str.len() - 3);
        let t = trim_chars(&inner);
        return Some(string_of(&t));
    }
    let mut doc = copy_chars(&start_str);
    let n = lines.len();
    let mut k = start + 1;
    proof {
        reveal_strlit(" ");
    }
    while k < n
        invariant_except_break
            doc_scan(lv, start + 1, start_str@, quote@) == doc_scan(lv, k as int, doc@, quote@),
        invariant
            lv == chars_view(lines@),
            n == lines@.len(),
            lv.len() == n,
            start < k <= n,
            quote@.len() == 3,
        ensures
            doc_scan(lv, start + 1, start_str@, quote@) == doc@,
        decreases n - k,
    {
        assert(lv[k as int] == lines@[k as int]@);
        proof {
            reveal_strlit(" ");
        }
        let t = trim_chars(&lines[k]);
        if ends_with_chars(&t, &quote) {
            let ghost db = doc@;
            let part = sub_chars(&t, 0, t.len() - 3);
            if part.len() > 0 {
                doc.push(' ');
                push_all(&mut doc, &part);
                assert(doc@ =~= db + " "@ + part@);
            }
            assert(doc_scan(lv, k as int, db, quote@) == doc@);
            break;
        }
        let ghost db = doc@;
        if doc.len() > 0 {
            doc.push(' ');
        }
        push_all(&mut doc, &t);
        assert(doc@ =~= (if db.len() > 0 { db + " "@ } else { db }) + t@);
        k = k + 1;
    }
    let d = trim_chars(&doc);
    if d.len() == 0 {
        None
    } else {
        Some(string_of(&d))
    }
}

// ---------------------------------------------------------------------------
// Functions
// ---------------------------------------------------------------------------

/// The functions found from line `i` on, or the first problem met: every
/// `def` line whose name does not start with `_` and is wanted starts a
/// function whose signature may run over several lines.
pub open spec fn funcs_from(lines: Seq<Seq<char>>, i: int, file: Seq<char>, targets: Option<Vec<String>>)
    -> Result<Seq<crate::ir::SpecFunctionDef>, super::SpecFrontendError>
    decreases lines.len() - i,
{
    if i < 0 || i >= lines.len() {
        Ok(Seq::empty())
    } else {
        let t = trim(lines[i]);
        if !"def "@.is_prefix_of(t) {
            funcs_from(lines, i + 1, file, targets)
        } else {
            let (sig, j) = sig_from(lines, t, i + 1);
            proof {
                lemma_sig_from(lines, t, i + 1);
            }
            match def_name(sig) {
                None => funcs_from(lines, i + 1, file, targets),
                Some(name) => if "_"@.is_prefix_of(name) || !super::is_target(targets, name) {
                    funcs_from(lines, i + 1, file, targets)
                } else {
                    match function_at(lines, i, name, sig, j, file) {
                        Err(e) => Err(e),
                        Ok(f) => match funcs_from(lines, j, file, targets) {
                            Ok(fs) => Ok(seq![f] + fs),
                            Err(e) => Err(e),
                        },
                    }
                },
            }
        }
    }
}

/// `rest` once the functions found so far, `acc`, are put in front of it.
pub open spec fn after_found(acc: Seq<crate::ir::SpecFunctionDef>, rest: Result<Seq<crate::ir::SpecFunctionDef>, super::SpecFrontendError>)
    -> Result<Seq<crate::ir::SpecFunctionDef>, super::SpecFrontendError>
{
    match rest {
        Ok(fs) => Ok(acc + fs),
        Err(e) => Err(e),
    }
}

/// The name declared by a signature `def name(...`, if it has a `(`.
pub open spec fn def_name(sig: Seq<char>) -> Option<Seq<char>> {
    let rest = sig.subrange(4, sig.len() as int);
    let p = find(rest, "("@);
    if p < 0 { None } else { Some(trim(rest.subrange(0, p))) }
}

/// The function called `name` whose `def` is on line `i`, with signature
/// `sig` ending before line `j`, or the problem met reading it.
pub open spec fn function_at(lines: Seq<Seq<char>>, i: int, name: Seq<char>, sig: Seq<char>, j: int, file: Seq<char>)
    -> Result<crate::ir::SpecFunctionDef, super::SpecFrontendError>
{
    let line = (i + 1) as u64;
    match split_sig(sig) {
        Err(m) => Err(super::SpecFrontendError::InContext {
            context: location(file, line) + ": malformed function signature"@,
            message: m,
        }),
        Ok((ps, ret)) => match params_from(split_commas(ps), file, line) {
            Err(m) => Err(super::SpecFrontendError::Message(m)),
            Ok(params) => Ok(crate::ir::SpecFunctionDef {
                name: name,
                wit_name: kebab(name),
                params: params,
                returns: match ret {
                    Some(x) => match py_type(trim(x)).0 {
                        Some(t) => crate::ir::SpecReturnType::Type(t),
                        None => crate::ir::SpecReturnType::Void,
                    },
                    None => crate::ir::SpecReturnType::Void,
                },
                docs: docstring(lines, j),
                source: line_span(file, i + 1),
            }),
        },
    }
}

/// The signature that starts as `t` on line `i`, joined with the lines after
/// it until it is complete, and the line after it.
fn collect_signature(lines: &Vec<Vec<char>>, t: &Vec<char>, i: usize) -> (r: (Vec<char>, usize))
    requires
        i < lines@.len(),
    ensures
        sig_from(chars_view(lines@), t@, i + 1) == (r.0@, r.1 as int),
        i < r.1 <= lines@.len(),
{
    let ghost lv = chars_view(lines@);
    let n = lines.len();
    let mut sig = copy_chars(t);
    let mut j = i + 1;
    while !sig_complete(&sig) && j < n
        invariant
            lv == chars_view(lines@),
            n == lines@.len(),
            lv.len() == n,
            i < j <= n,
            sig_from(lv, t@, i + 1) == sig_from(lv, sig@, j as int),
        decreases n - j,
    {
        assert(lv[j as int] == lines@[j as int]@);
        let tj = trim_chars(&lines[j]);
        let ghost sb = sig@;
        sig.push(' ');
        push_all(&mut sig, &tj);
        assert(sig@ =~= sb + " "@ + tj@) by {
            reveal_strlit(" ");
        }
        j = j + 1;
    }
    (sig, j)
}

/// The name declared by a signature that starts with `def `.
fn def_name_exec(sig: &Vec<char>) -> (r: Option<Vec<char>>)
    requires
        sig@.len() >= 4,
    ensures
        match r {
            Some(n) => def_name(sig@) == Some(n@),
            None => def_name(sig@) is None,
        },
{
    proof {
        reveal_strlit("(");
        assert(seq!['('] =~= "("@);
    }
    let rest = sub_chars(sig, 4, sig.len());
    match find_char(&rest, '(') {
        Some(p) => {
            let raw = sub_chars(&rest, 0, p);
            Some(trim_chars(&raw))
        },
        None => None,
    }
}

/// The view of a function-reading result.
pub open spec fn read_view(r: Result<crate::ir::FunctionDef, super::FrontendError>)
    -> Result<crate::ir::SpecFunctionDef, super::SpecFrontendError>
{
    match r {
        Ok(f) => Ok(f@),
        Err(e) => Err(e@),
    }
}

/// Reads the function called `name` whose `def` is on line `i`.
fn read_function(lines: &Vec<Vec<char>>, i: usize, name: &Vec<char>, sig: &Vec<char>, j: usize, file: &str)
    -> (r: Result<crate::ir::FunctionDef, super::FrontendError>)
    requires
        i < lines@.len(),
    ensures
        read_view(r) == function_at(chars_view(lines@), i as int, name@, sig@, j as int, file@),
{
    let n = lines.len();
    let line = (i + 1) as u64;
    let (params_str, ret) = match split_signature(sig) {
        Ok(x) => x,
        Err(m) => {
            let mut context = location_exec(file, line);
            context.append(": malformed function signature");
            return Err(super::FrontendError::InContext { context: context, message: m });
        },
    };
    let params = match parse_params(&params_str, file, line) {
        Ok(ps) => ps,
        Err(m) => return Err(super::FrontendError::Message(m)),
    };
    let ret_ty = match ret {
        Some(x) => {
            let tx = trim_chars(&x);
            match parse_python_type(&tx).0 {
                Some(t) => crate::ir::ReturnType::Type(t),
                None => crate::ir::ReturnType::Void,
            }
        },
        None => crate::ir::ReturnType::Void,
    };
    let docs = extract_docstring(lines, j);
    let n = string_of(name);
    let f = crate::ir::FunctionDef {
        wit_name: crate::ir::to_kebab_case(n.as_str()),
        name: n,
        params: params,
        returns: ret_ty,
        docs: docs,
        source: line_span_exec(file, i + 1),
    };
    assert(f@.params =~= super::typescript::params_view(params@));
    Ok(f)
}

/// The functions declared in `lines` of `file` that `config` wants.
pub fn parse_functions(lines: &Vec<Vec<char>>, file: &str, config: &super::FrontendConfig)
    -> (r: Result<Vec<crate::ir::FunctionDef>, super::FrontendError>)
    ensures
        match r {
            Ok(v) => funcs_from(chars_view(lines@), 0, file@, config.target_functions)
                == Ok::<Seq<crate::ir::SpecFunctionDef>, super::SpecFrontendError>(funcs_view(v@)),
            Err(e) => funcs_from(chars_view(lines@), 0, file@, config.target_functions)
                == Err::<Seq<crate::ir::SpecFunctionDef>, super::SpecFrontendError>(e@),
        },
{
    let ghost lv = chars_view(lines@);
    let ghost targets = config.target_functions;
    let n = lines.len();
    let mut out: Vec<crate::ir::FunctionDef> = Vec::new();
    let mut i: usize = 0;
    assert(funcs_view(out@) =~= Seq::<crate::ir::SpecFunctionDef>::empty());
    proof {
        reveal_strlit("def ");
        reveal_strlit("_");
    }
    while i < n
        invariant
            lv == chars_view(lines@),
            n == lines@.len(),
            lv.len() == n,
            i <= n,
            targets == config.target_functions,
            funcs_from(lv, 0, file@, targets) == after_found(funcs_view(out@), funcs_from(lv, i as int, file@, targets)),
        decreases n - i,
    {
        assert(lv[i as int] == lines@[i as int]@);
        proof {
            reveal_strlit("def ");
            reveal_strlit("_");
        }
        let t = trim_chars(&lines[i]);
        if !starts_lit(&t, "def ") {
            i = i + 1;
            continue;
        }
        let (sig, j) = collect_signature(lines, &t, i);
        proof {
            lemma_sig_from(lv, t@, i + 1);
            assert(t@.len() >= 4);
            assert(sig@.len() >= t@.len());
        }
        let name = match def_name_exec(&sig) {
            Some(nm) => nm,
            None => {
                i = i + 1;
                continue;
            },
        };
        let skip = starts_lit(&name, "_") || {
            let ns = string_of(&name);
            !config.wants(ns.as_str())
        };
        if skip {
            i = i + 1;
            continue;
        }
        match read_function(lines, i, &name, &sig, j, file) {
            Err(e) => {
                return Err(e);
            },
            Ok(f) => {
                let ghost ob = funcs_view(out@);
                out.push(f);
                assert(funcs_view(out@) =~= ob.push(f@));
                assert(after_found(ob, funcs_from(lv, i as int, file@, targets))
                    =~= after_found(funcs_view(out@), funcs_from(lv, j as int, file@, targets))) by {
                    match funcs_from(lv, j as int, file@, targets) {
                        Ok(fs) => {
                            assert(ob + (seq![f@] + fs) =~= ob.push(f@) + fs);
                        },
                        Err(e) => {},
                    }
                }
                i = j;
            },
        }
    }
    assert(funcs_from(lv, i as int, file@, targets) == Ok::<Seq<crate::ir::SpecFunctionDef>, super::SpecFrontendError>(Seq::empty()));
    assert(funcs_view(out@) + Seq::<crate::ir::SpecFunctionDef>::empty() =~= funcs_view(out@));
    Ok(out)
}

// ---------------------------------------------------------------------------
// The frontend
// ---------------------------------------------------------------------------

/// The interface found in the text `content` of the Python module `file`,
/// or the first problem met.
pub open spec fn python_extraction(content: Seq<char>, file: Seq<char>, config: super::FrontendConfig)
    -> Result<crate::ir::SpecWitIR, super::SpecFrontendError>
{
    let ls = lines(content);
    match funcs_from(ls, 0, file, config.target_functions) {
        Err(e) => Err(e),
        Ok(fs) => Ok(crate::ir::SpecWitIR {
            package: config.package_name@,
            world_name: config.world_name@,
            types: typedefs_from(ls, 0, file),
            functions: fs,
            imports: Seq::empty(),
        }),
    }
}

/// The Python frontend.
#[derive(Debug)]
pub struct PythonFrontend;

impl PythonFrontend {
    /// The language this frontend reads.
    pub fn language(&self) -> (r: &'static str)
        ensures
            r@ == "python"@,
    {
        "python"
    }

    /// Extracts the interface of the Python module `file`, whose text is `content`.
    pub fn extract(&self, content: &str, file: &str, config: &super::FrontendConfig)
        -> (r: Result<crate::ir::WitIR, super::FrontendError>)
        ensures
            match r {
                Ok(ir) => python_extraction(content@, file@, *config)
                    == Ok::<crate::ir::SpecWitIR, super::SpecFrontendError>(ir@),
                Err(e) => python_extraction(content@, file@, *config)
                    == Err::<crate::ir::SpecWitIR, super::SpecFrontendError>(e@),
            },
    {
        let cs = chars_of(content);
        let ls = lines_of(&cs);
        let types = parse_type_defs(&ls, file);
        let functions = parse_functions(&ls, file, config)?;
        let ir = crate::ir::WitIR {
            package: crate::text::owned(config.package_name.as_str()),
            world_name: crate::text::owned(config.world_name.as_str()),
            types: types,
            functions: functions,
            imports: Vec::new(),
        };
        assert(ir@.imports =~= Seq::<crate::ir::SpecImportDef>::empty());
        assert(ir@.types =~= typedefs_view(types@));
        assert(ir@.functions =~= funcs_view(functions@));
        Ok(ir)
    }
}


// ---------------------------------------------------------------------------
// What the frontend guarantees
// ---------------------------------------------------------------------------

/// Every function read from a Python module from line `i` on is public (its
/// name does not start with `_`) and one that the configuration asks for.
pub proof fn law_python_functions_are_public_targets(
    lines: Seq<Seq<char>>,
    i: int,
    file: Seq<char>,
    targets: Option<Vec<String>>,
)
    ensures
        funcs_from(lines, i, file, targets) matches Ok(fs) ==> forall|k: int| 0 <= k < fs.len() ==> {
            &&& !"_"@.is_prefix_of(#[trigger] fs[k].name)
            &&& super::is_target(targets, fs[k].name)
        },
    decreases lines.len() - i,
{
    if 0 <= i < lines.len() {
        let t = trim(lines[i]);
        if !"def "@.is_prefix_of(t) {
            law_python_functions_are_public_targets(lines, i + 1, file, targets);
        } else {
            let (sig, j) = sig_from(lines, t, i + 1);
            lemma_sig_from(lines, t, i + 1);
            match def_name(sig) {
                None => law_python_functions_are_public_targets(lines, i + 1, file, targets),
                Some(name) => {
                    if "_"@.is_prefix_of(name) || !super::is_target(targets, name) {
                        law_python_functions_are_public_targets(lines, i + 1, file, targets);
                    } else {
                        law_python_functions_are_public_targets(lines, j, file, targets);
                        if let (Ok(f), Ok(fs)) = (function_at(lines, i, name, sig, j, file), funcs_from(lines, j, file, targets)) {
                            let all = seq![f] + fs;
                            assert forall|k: int| 0 <= k < all.len() implies {
                                &&& !"_"@.is_prefix_of(#[trigger] all[k].name)
                                &&& super::is_target(targets, all[k].name)
                            } by {
                                if k > 0 {
                                    assert(all[k] == fs[k - 1]);
                                }
                            }
                        }
                    }
                },
            }
        }
    }
}

/// An annotation read as optional maps to an option type, and an
/// unsupported annotation is never read as optional.
pub proof fn law_optional_annotations_map_to_options(ty: Seq<char>)
    ensures
        py_type(ty).1 ==> py_type(ty).0 matches Some(SpecIRType::Option(_)),
        py_type(ty).0 is None ==> !py_type(ty).1,
{
}

} // verus!
