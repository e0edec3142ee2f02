//! Joining file-system paths held as text.

use vstd::prelude::*;
use crate::text::owned;

verus! {

/// `base` with the relative component `comp` appended, with a `/` between
/// them unless `base` is empty or already ends with one; an absolute `comp`
/// replaces `base`.
pub open spec fn path_join(base: Seq<char>, comp: Seq<char>) -> Seq<char> {
    if comp.len() > 0 && comp[0] == '/' {
        comp
    } else if base.len() == 0 {
        comp
    } else if base.last() == '/' {
        base + comp
    } else {
        base + "/"@ + comp
    }
}

/// Appends the component `comp` to the path `base`.
pub fn join_path(base: &str, comp: &str) -> (r: String)
    ensures
        r@ == path_join(base@, comp@),
{
    let n = base.unicode_len();
    if comp.unicode_len() > 0 && comp.get_char(0) == '/' {
        owned(comp)
    } else if n == 0 {
        owned(comp)
    } else if base.get_char(n - 1) == '/' {
        let mut r = owned(base);
        r.append(comp);
        r
    } else {
        let mut r = owned(base);
        r.append("/");
        r.append(comp);
        r
    }
}

/// The home directory to keep state under: `$HOME`, or the current
/// directory when it is not set.
pub open spec fn home_or_here(home: Option<String>) -> Seq<char> {
    match home {
        Some(h) => h@,
        None => "."@,
    }
}

/// `$HOME`, or `.` when it is not set.
pub fn home_dir(home: &Option<String>) -> (r: String)
    ensures
        r@ == home_or_here(*home),
{
    match home {
        Some(h) => owned(h.as_str()),
        None => owned("."),
    }
}

} // verus!
