//! The configuration snapshot: an ordered list of `(key, value)` variables,
//! read once, from which rule names and rule fields are taken.
use vstd::prelude::*;
use crate::text::{is_alnum, str_equals};

verus! {

/// The prefix shared by every key of the configuration.
pub open spec fn key_prefix() -> Seq<char> {
    "SR_REDIR_"@
}

/// The key `SR_REDIR_<name><suffix>`.
pub open spec fn key_of(name: Seq<char>, suffix: Seq<char>) -> Seq<char> {
    key_prefix() + name + suffix
}

/// The value of the first variable named `key` at index `i` or later.
pub open spec fn lookup_from(vars: Seq<(String, String)>, key: Seq<char>, i: int) -> Option<Seq<char>>
    decreases vars.len() - i,
{
    if i < 0 || i >= vars.len() {
        None
    } else if vars[i].0@ == key {
        Some(vars[i].1@)
    } else {
        lookup_from(vars, key, i + 1)
    }
}

/// The value of the first variable named `key` in the whole list.
pub open spec fn lookup(vars: Seq<(String, String)>, key: Seq<char>) -> Option<Seq<char>> {
    lookup_from(vars, key, 0)
}

/// The rule name that a key declares: `SR_REDIR_` followed by one or more
/// ASCII letters or digits, and nothing else.
pub open spec fn rule_name_of(key: Seq<char>) -> Option<Seq<char>> {
    let n = key_prefix().len();
    if key.len() > n && key.take(n as int) == key_prefix()
        && (forall|i: int| n <= i < key.len() ==> is_alnum(#[trigger] key[i])) {
        Some(key.skip(n as int))
    } else {
        None
    }
}

/// The rule names declared by the variables, in their order.
pub open spec fn names_in(vars: Seq<(String, String)>) -> Seq<Seq<char>>
    decreases vars.len(),
{
    if vars.len() == 0 {
        seq![]
    } else {
        let rest = names_in(vars.drop_last());
        match rule_name_of(vars.last().0@) {
            Some(name) => rest.push(name),
            None => rest,
        }
    }
}

/// The character sequences held by a list of strings.
pub open spec fn strings_view(v: Seq<String>) -> Seq<Seq<char>> {
    v.map_values(|s: String| s@)
}

/// Splits `s` at each comma; returns the finished non-empty pieces and the
/// piece still open at the end.
pub open spec fn split_scan(s: Seq<char>) -> (Seq<Seq<char>>, Seq<char>)
    decreases s.len(),
{
    if s.len() == 0 {
        (seq![], seq![])
    } else {
        let (done, open) = split_scan(s.drop_last());
        if s.last() == ',' {
            if open.len() > 0 {
                (done.push(open), seq![])
            } else {
                (done, seq![])
            }
        } else {
            (done, open.push(s.last()))
        }
    }
}

/// The non-empty comma-separated pieces of `s`, in order.
pub open spec fn split_paths(s: Seq<char>) -> Seq<Seq<char>> {
    let (done, open) = split_scan(s);
    if open.len() > 0 {
        done.push(open)
    } else {
        done
    }
}

/// Appending a string appends its characters' sequence to the view.
pub proof fn lemma_strings_view_push(v: Seq<String>, s: String)
    ensures
        strings_view(v.push(s)) == strings_view(v).push(s@),
{
    assert(strings_view(v.push(s)) =~= strings_view(v).push(s@));
}

/// Builds the key `SR_REDIR_<name><suffix>`.
pub fn config_key(name: &str, suffix: &str) -> (r: String)
    ensures
        r@ == key_of(name@, suffix@),
{
    let mut k = String::from_str("SR_REDIR_");
    k.append(name);
    k.append(suffix);
    k
}

/// The value of the first variable named `key`.
pub fn lookup_var(vars: &Vec<(String, String)>, key: &str) -> (r: Option<String>)
    ensures
        r.is_some() == lookup(vars@, key@).is_some(),
        r matches Some(v) ==> lookup(vars@, key@) == Some(v@),
{
    let mut i: usize = 0;
    while i < vars.len()
        invariant
            i <= vars@.len(),
            lookup(vars@, key@) == lookup_from(vars@, key@, i as int),
        decreases vars@.len() - i,
    {
        if str_equals(vars[i].0.as_str(), key) {
            return Some(vars[i].1.clone());
        }
        i = i + 1;
    }
    None
}

/// Whether `a` begins with `p`.
pub fn starts_with(a: &str, p: &str) -> (r: bool)
    ensures
        r == (p@.len() <= a@.len() && a@.take(p@.len() as int) == p@),
{
    let n = p.unicode_len();
    if n > a.unicode_len() {
        return false;
    }
    let mut i: usize = 0;
    while i < n
        invariant
            n == p@.len(),
            n <= a@.len(),
            i <= n,
            forall|j: int| 0 <= j < i ==> a@[j] == p@[j],
        decreases n - i,
    {
        if a.get_char(i) != p.get_char(i) {
            assert(a@.take(n as int)[i as int] != p@[i as int]);
            return false;
        }
        i = i + 1;
    }
    assert(a@.take(n as int) =~= p@);
    true
}

/// The rule name that `key` declares, if it declares one.
pub fn rule_name_of_key(key: &str) -> (r: Option<String>)
    ensures
        r.is_some() == rule_name_of(key@).is_some(),
        r matches Some(name) ==> rule_name_of(key@) == Some(name@),
{
    let prefix = "SR_REDIR_";
    proof {
        reveal_strlit("SR_REDIR_");
    }
    let p = prefix.unicode_len();
    let n = key.unicode_len();
    if n <= p || !starts_with(key, prefix) {
        return None;
    }
    let mut i: usize = p;
    while i < n
        invariant
            p == key_prefix().len(),
            n == key@.len(),
            p <= i <= n,
            forall|j: int| p <= j < i ==> is_alnum(#[trigger] key@[j]),
        decreases n - i,
    {
        let c = key.get_char(i);
        if !(('0' <= c && c <= '9') || ('a' <= c && c <= 'z') || ('A' <= c && c <= 'Z')) {
            assert(!is_alnum(key@[i as int]));
            return None;
        }
        i = i + 1;
    }
    let name = key.substring_char(p, n);
    Some(String::from_str(name))
}

/// The non-empty comma-separated pieces of `s`, in order.
pub fn split_list(s: &str) -> (r: Vec<String>)
    ensures
        strings_view(r@) == split_paths(s@),
{
    let n = s.unicode_len();
    let mut done: Vec<String> = Vec::new();
    let mut start: usize = 0;
    let mut i: usize = 0;
    while i < n
        invariant
            n == s@.len(),
            start <= i <= n,
            split_scan(s@.take(i as int)) == (strings_view(done@), s@.subrange(start as int, i as int)),
        decreases n - i,
    {
        proof {
            assert(s@.take(i + 1).drop_last() =~= s@.take(i as int));
        }
        if s.get_char(i) == ',' {
            if start < i {
                let piece = String::from_str(s.substring_char(start, i));
                proof {
                    lemma_strings_view_push(done@, piece);
                }
                done.push(piece);
            }
            start = i + 1;
            assert(s@.subrange(start as int, i + 1) =~= Seq::<char>::empty());
        } else {
            assert(s@.subrange(start as int, i + 1) =~= s@.subrange(start as int, i as int).push(s@[i as int]));
        }
        i = i + 1;
    }
    assert(s@.take(n as int) =~= s@);
    if start < n {
        let piece = String::from_str(s.substring_char(start, n));
        proof {
            lemma_strings_view_push(done@, piece);
        }
        done.push(piece);
    }
    done
}

} // verus!
