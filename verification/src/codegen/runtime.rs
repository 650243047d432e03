//! Runtime function names and the mapping from Riven names to them.
use vstd::prelude::*;
use vstd::string::StrSliceExecFns;
use crate::text::chars_of;

verus! {

/// Path to the C runtime source file, relative to the compiler crate root.
pub const RUNTIME_C_SOURCE: &'static str = "runtime/runtime.c";

/// All runtime functions that the C runtime provides.
pub const RUNTIME_FUNCTIONS: [&'static str; 39] = [
    "riven_puts",
    "riven_print",
    "riven_eputs",
    "riven_print_int",
    "riven_print_float",
    "riven_int_to_string",
    "riven_float_to_string",
    "riven_bool_to_string",
    "riven_char_to_string",
    "riven_string_concat",
    "riven_string_from",
    "riven_string_to_upper",
    "riven_string_chars",
    "riven_vec_pop",
    "riven_hash_new",
    "riven_hash_insert",
    "riven_hash_get",
    "riven_hash_contains_key",
    "riven_hash_len",
    "riven_hash_is_empty",
    "riven_set_new",
    "riven_set_insert",
    "riven_set_contains",
    "riven_set_len",
    "riven_set_is_empty",
    "riven_alloc",
    "riven_dealloc",
    "riven_realloc",
    "riven_panic",
    "riven_option_expect",
    "riven_option_unwrap",
    "riven_option_is_some",
    "riven_option_is_none",
    "riven_result_expect",
    "riven_result_unwrap",
    "riven_result_is_ok",
    "riven_result_is_err",
    "riven_result_ok",
    "riven_result_err",
];

/// `s` begins with `p`.
pub open spec fn starts_with(s: Seq<char>, p: Seq<char>) -> bool {
    p.len() <= s.len() && s.subrange(0, p.len() as int) == p
}

/// `p` occurs in `s` starting at index `i`.
pub open spec fn occurs_at(s: Seq<char>, p: Seq<char>, i: int) -> bool {
    0 <= i && i + p.len() <= s.len() && s.subrange(i, i + p.len()) == p
}

/// `p` occurs somewhere in `s`.
pub open spec fn contains_sub(s: Seq<char>, p: Seq<char>) -> bool {
    exists|i: int| occurs_at(s, p, i)
}

/// Whether the characters `s` spell the literal `lit`.
pub fn eq_lit(s: &Vec<char>, lit: &str) -> (r: bool)
    ensures
        r == (s@ == lit@),
{
    let l = chars_of(lit);
    if s.len() != l.len() {
        return false;
    }
    let mut i: usize = 0;
    while i < s.len()
        invariant
            i <= s@.len() == l@.len(),
            l@ == lit@,
            forall|j: int| 0 <= j < i ==> s@[j] == l@[j],
        decreases s@.len() - i,
    {
        if s[i] != l[i] {
            return false;
        }
        i = i + 1;
    }
    proof { assert(s@ =~= l@); }
    true
}

/// Whether `s` occurs in `t` at index `at`.
fn matches_at(t: &Vec<char>, s: &Vec<char>, at: usize) -> (r: bool)
    requires
        at <= t@.len(),
    ensures
        r == occurs_at(t@, s@, at as int),
{
    if s.len() > t.len() - at {
        return false;
    }
    let mut i: usize = 0;
    while i < s.len()
        invariant
            at + s@.len() <= t@.len(),
            t@.len() == t.len(),
            i <= s@.len(),
            forall|j: int| 0 <= j < i ==> t@[at + j] == s@[j],
        decreases s@.len() - i,
    {
        if t[at + i] != s[i] {
            proof { assert(t@.subrange(at as int, at + s@.len())[i as int] != s@[i as int]); }
            return false;
        }
        i = i + 1;
    }
    proof { assert(t@.subrange(at as int, at + s@.len()) =~= s@); }
    true
}

/// Whether `t` begins with the literal `lit`.
pub fn starts_with_lit(t: &Vec<char>, lit: &str) -> (r: bool)
    ensures
        r == starts_with(t@, lit@),
{
    let l = chars_of(lit);
    matches_at(t, &l, 0)
}

/// Whether the literal `lit` occurs in `t`.
pub fn contains_lit(t: &Vec<char>, lit: &str) -> (r: bool)
    ensures
        r == contains_sub(t@, lit@),
{
    let l = chars_of(lit);
    if l.len() > t.len() {
        proof {
            assert forall|i: int| !occurs_at(t@, lit@, i) by {}
        }
        return false;
    }
    let last = t.len() - l.len();
    let mut i: usize = 0;
    loop
        invariant
            l@ == lit@,
            l@.len() <= t@.len(),
            last == t@.len() - l@.len(),
            i <= last,
            forall|j: int| 0 <= j < i ==> !occurs_at(t@, lit@, j),
        ensures
            forall|j: int| 0 <= j <= last ==> !occurs_at(t@, lit@, j),
        decreases last - i,
    {
        if matches_at(t, &l, i) {
            return true;
        }
        if i == last {
            break;
        }
        i = i + 1;
    }
    proof {
        assert forall|j: int| !occurs_at(t@, lit@, j) by {
            if 0 <= j <= last {
            }
        }
    }
    false
}

/// The index of the last `]_` at or before position `j` (exclusive end).
pub open spec fn last_pair_before(s: Seq<char>, j: int) -> Option<int>
    decreases j,
{
    if j < 2 || j > s.len() {
        None
    } else if s[j - 2] == ']' && s[j - 1] == '_' {
        Some(j - 2)
    } else {
        last_pair_before(s, j - 1)
    }
}

/// The index of the first `c` at or after position `i`.
pub open spec fn first_from(s: Seq<char>, c: char, i: int) -> Option<int>
    decreases s.len() - i,
{
    if i < 0 || i >= s.len() {
        None
    } else if s[i] == c {
        Some(i)
    } else {
        first_from(s, c, i + 1)
    }
}

/// The method part of a mangled `Type_method` name: what follows the last `]_`
/// if there is one, else what follows the first `_`, else the whole name.
pub open spec fn method_name_spec(s: Seq<char>) -> Seq<char> {
    match last_pair_before(s, s.len() as int) {
        Some(p) => s.subrange(p + 2, s.len() as int),
        None => match first_from(s, '_', 0) {
            Some(p) => s.subrange(p + 1, s.len() as int),
            None => s,
        },
    }
}

proof fn lemma_last_pair_bounds(s: Seq<char>, j: int)
    ensures
        last_pair_before(s, j) matches Some(p) ==> 0 <= p && p + 2 <= j <= s.len(),
    decreases j,
{
    if 2 <= j <= s.len() && !(s[j - 2] == ']' && s[j - 1] == '_') {
        lemma_last_pair_bounds(s, j - 1);
    }
}

proof fn lemma_first_from_bounds(s: Seq<char>, c: char, i: int)
    ensures
        first_from(s, c, i) matches Some(p) ==> i <= p < s.len(),
    decreases s.len() - i,
{
    if 0 <= i < s.len() && s[i] != c {
        lemma_first_from_bounds(s, c, i + 1);
    }
}

fn last_pair(s: &Vec<char>) -> (r: Option<usize>)
    ensures
        match r {
            Some(p) => last_pair_before(s@, s@.len() as int) == Some(p as int),
            None => last_pair_before(s@, s@.len() as int) is None,
        },
{
    let mut j = s.len();
    while j >= 2
        invariant
            j <= s@.len(),
            last_pair_before(s@, s@.len() as int) == last_pair_before(s@, j as int),
        decreases j,
    {
        if s[j - 2] == ']' && s[j - 1] == '_' {
            return Some(j - 2);
        }
        j = j - 1;
    }
    None
}

fn first_index(s: &Vec<char>, c: char) -> (r: Option<usize>)
    ensures
        match r {
            Some(p) => first_from(s@, c, 0) == Some(p as int),
            None => first_from(s@, c, 0) is None,
        },
{
    let mut i: usize = 0;
    while i < s.len()
        invariant
            i <= s@.len(),
            first_from(s@, c, 0) == first_from(s@, c, i as int),
        decreases s@.len() - i,
    {
        if s[i] == c {
            return Some(i);
        }
        i = i + 1;
    }
    None
}

/// Extracts the method name from a mangled `TypeName_method` string.
///
/// Handles generic types like `Vec[T]_push` by finding `]_` as the
/// type/method separator. For simple types, uses the first `_`.
pub fn extract_method_name(mangled: &str) -> (r: &str)
    ensures
        r@ == method_name_spec(mangled@),
{
    let cs = chars_of(mangled);
    let n = cs.len();
    proof {
        lemma_last_pair_bounds(cs@, cs@.len() as int);
        lemma_first_from_bounds(cs@, '_', 0);
    }
    match last_pair(&cs) {
        Some(p) => mangled.substring_char(p + 2, n),
        None => match first_index(&cs, '_') {
            Some(p) => mangled.substring_char(p + 1, n),
            None => mangled,
        },
    }
}

/// The runtime symbols named directly by the Riven function name.
pub open spec fn direct_runtime_name(name: Seq<char>) -> Option<Seq<char>> {
    if name == "puts"@ {
        Some("riven_puts"@)
    } else if name == "eputs"@ {
        Some("riven_eputs"@)
    } else if name == "print"@ {
        Some("riven_print"@)
    } else if name == "String_from"@ {
        Some("riven_string_from"@)
    } else if name == "String_push_str"@ {
        Some("riven_string_push_str"@)
    } else if name == "String_len"@ {
        Some("riven_string_len"@)
    } else if name == "String_is_empty"@ {
        Some("riven_string_is_empty"@)
    } else if name == "String_trim"@ {
        Some("riven_string_trim"@)
    } else if name == "String_to_lower"@ {
        Some("riven_string_to_lower"@)
    } else if name == "String_to_upper"@ {
        Some("riven_string_to_upper"@)
    } else if name == "String_chars"@ {
        Some("riven_string_chars"@)
    } else if name == "String_clone"@ {
        Some("riven_string_from"@)
    } else if name == "&str_split"@ {
        Some("riven_str_split"@)
    } else if name == "&str_parse_uint"@ {
        Some("riven_str_parse_uint"@)
    } else if name == "&str_len"@ {
        Some("riven_string_len"@)
    } else if name == "&str_is_empty"@ {
        Some("riven_string_is_empty"@)
    } else if name == "&str_trim"@ {
        Some("riven_string_trim"@)
    } else if name == "&str_to_lower"@ {
        Some("riven_string_to_lower"@)
    } else if name == "&str_to_upper"@ {
        Some("riven_string_to_upper"@)
    } else if name == "&str_chars"@ {
        Some("riven_string_chars"@)
    } else if name == "&str_as_str"@ {
        Some("riven_noop_passthrough"@)
    } else if name == "super"@ {
        Some("riven_noop"@)
    } else if name == "yield"@ {
        Some("riven_noop_passthrough"@)
    } else {
        None
    }
}

fn direct_runtime_name_exec(name: &Vec<char>) -> (r: Option<&'static str>)
    ensures
        match r {
            Some(s) => direct_runtime_name(name@) == Some(s@),
            None => direct_runtime_name(name@) is None,
        },
{
    if eq_lit(name, "puts") {
        Some("riven_puts")
    } else if eq_lit(name, "eputs") {
        Some("riven_eputs")
    } else if eq_lit(name, "print") {
        Some("riven_print")
    } else if eq_lit(name, "String_from") {
        Some("riven_string_from")
    } else if eq_lit(name, "String_push_str") {
        Some("riven_string_push_str")
    } else if eq_lit(name, "String_len") {
        Some("riven_string_len")
    } else if eq_lit(name, "String_is_empty") {
        Some("riven_string_is_empty")
    } else if eq_lit(name, "String_trim") {
        Some("riven_string_trim")
    } else if eq_lit(name, "String_to_lower") {
        Some("riven_string_to_lower")
    } else if eq_lit(name, "String_to_upper") {
        Some("riven_string_to_upper")
    } else if eq_lit(name, "String_chars") {
        Some("riven_string_chars")
    } else if eq_lit(name, "String_clone") {
        Some("riven_string_from")
    } else if eq_lit(name, "&str_split") {
        Some("riven_str_split")
    } else if eq_lit(name, "&str_parse_uint") {
        Some("riven_str_parse_uint")
    } else if eq_lit(name, "&str_len") {
        Some("riven_string_len")
    } else if eq_lit(name, "&str_is_empty") {
        Some("riven_string_is_empty")
    } else if eq_lit(name, "&str_trim") {
        Some("riven_string_trim")
    } else if eq_lit(name, "&str_to_lower") {
        Some("riven_string_to_lower")
    } else if eq_lit(name, "&str_to_upper") {
        Some("riven_string_to_upper")
    } else if eq_lit(name, "&str_chars") {
        Some("riven_string_chars")
    } else if eq_lit(name, "&str_as_str") {
        Some("riven_noop_passthrough")
    } else if eq_lit(name, "super") {
        Some("riven_noop")
    } else if eq_lit(name, "yield") {
        Some("riven_noop_passthrough")
    } else {
        None
    }
}

/// The runtime symbol for method `m` of the `iter` family, `name` itself when there is none.
pub open spec fn iter_method_symbol(m: Seq<char>, name: Seq<char>) -> Seq<char> {
    if m == "filter"@ {
        "riven_noop_passthrough"@
    } else if m == "find"@ {
        "riven_noop_return_null"@
    } else if m == "position"@ {
        "riven_noop_return_null"@
    } else if m == "partition"@ {
        "riven_noop_passthrough"@
    } else if m == "enumerate"@ {
        "riven_noop_passthrough"@
    } else if m == "to_vec"@ {
        "riven_noop_passthrough"@
    } else {
        name
    }
}

fn iter_method_exec<'a>(m: &Vec<char>, name: &'a str) -> (r: &'a str)
    ensures
        r@ == iter_method_symbol(m@, name@),
{
    if eq_lit(m, "filter") {
        "riven_noop_passthrough"
    } else if eq_lit(m, "find") {
        "riven_noop_return_null"
    } else if eq_lit(m, "position") {
        "riven_noop_return_null"
    } else if eq_lit(m, "partition") {
        "riven_noop_passthrough"
    } else if eq_lit(m, "enumerate") {
        "riven_noop_passthrough"
    } else if eq_lit(m, "to_vec") {
        "riven_noop_passthrough"
    } else {
        name
    }
}

/// The runtime symbol for method `m` of the `hash` family, `name` itself when there is none.
pub open spec fn hash_method_symbol(m: Seq<char>, name: Seq<char>) -> Seq<char> {
    if m == "new"@ {
        "riven_hash_new"@
    } else if m == "insert"@ {
        "riven_hash_insert"@
    } else if m == "get"@ {
        "riven_hash_get"@
    } else if m == "contains_key"@ {
        "riven_hash_contains_key"@
    } else if m == "len"@ {
        "riven_hash_len"@
    } else if m == "is_empty"@ {
        "riven_hash_is_empty"@
    } else {
        name
    }
}

fn hash_method_exec<'a>(m: &Vec<char>, name: &'a str) -> (r: &'a str)
    ensures
        r@ == hash_method_symbol(m@, name@),
{
    if eq_lit(m, "new") {
        "riven_hash_new"
    } else if eq_lit(m, "insert") {
        "riven_hash_insert"
    } else if eq_lit(m, "get") {
        "riven_hash_get"
    } else if eq_lit(m, "contains_key") {
        "riven_hash_contains_key"
    } else if eq_lit(m, "len") {
        "riven_hash_len"
    } else if eq_lit(m, "is_empty") {
        "riven_hash_is_empty"
    } else {
        name
    }
}

/// The runtime symbol for method `m` of the `set` family, `name` itself when there is none.
pub open spec fn set_method_symbol(m: Seq<char>, name: Seq<char>) -> Seq<char> {
    if m == "new"@ {
        "riven_set_new"@
    } else if m == "insert"@ {
        "riven_set_insert"@
    } else if m == "contains"@ {
        "riven_set_contains"@
    } else if m == "len"@ {
        "riven_set_len"@
    } else if m == "is_empty"@ {
        "riven_set_is_empty"@
    } else {
        name
    }
}

fn set_method_exec<'a>(m: &Vec<char>, name: &'a str) -> (r: &'a str)
    ensures
        r@ == set_method_symbol(m@, name@),
{
    if eq_lit(m, "new") {
        "riven_set_new"
    } else if eq_lit(m, "insert") {
        "riven_set_insert"
    } else if eq_lit(m, "contains") {
        "riven_set_contains"
    } else if eq_lit(m, "len") {
        "riven_set_len"
    } else if eq_lit(m, "is_empty") {
        "riven_set_is_empty"
    } else {
        name
    }
}

/// The runtime symbol for method `m` of the `vec` family, `name` itself when there is none.
pub open spec fn vec_method_symbol(m: Seq<char>, name: Seq<char>) -> Seq<char> {
    if m == "new"@ {
        "riven_vec_new"@
    } else if m == "push"@ {
        "riven_vec_push"@
    } else if m == "pop"@ {
        "riven_vec_pop"@
    } else if m == "len"@ {
        "riven_vec_len"@
    } else if m == "get"@ {
        "riven_vec_get_opt"@
    } else if m == "get_mut"@ {
        "riven_vec_get_opt"@
    } else if m == "is_empty"@ {
        "riven_vec_is_empty"@
    } else if m == "each"@ {
        "riven_vec_each"@
    } else if m == "iter"@ {
        "riven_noop_passthrough"@
    } else if m == "into_iter"@ {
        "riven_noop_passthrough"@
    } else if m == "to_vec"@ {
        "riven_noop_passthrough"@
    } else {
        name
    }
}

fn vec_method_exec<'a>(m: &Vec<char>, name: &'a str) -> (r: &'a str)
    ensures
        r@ == vec_method_symbol(m@, name@),
{
    if eq_lit(m, "new") {
        "riven_vec_new"
    } else if eq_lit(m, "push") {
        "riven_vec_push"
    } else if eq_lit(m, "pop") {
        "riven_vec_pop"
    } else if eq_lit(m, "len") {
        "riven_vec_len"
    } else if eq_lit(m, "get") {
        "riven_vec_get_opt"
    } else if eq_lit(m, "get_mut") {
        "riven_vec_get_opt"
    } else if eq_lit(m, "is_empty") {
        "riven_vec_is_empty"
    } else if eq_lit(m, "each") {
        "riven_vec_each"
    } else if eq_lit(m, "iter") {
        "riven_noop_passthrough"
    } else if eq_lit(m, "into_iter") {
        "riven_noop_passthrough"
    } else if eq_lit(m, "to_vec") {
        "riven_noop_passthrough"
    } else {
        name
    }
}

/// The runtime symbol for method `m` of the `option` family, `name` itself when there is none.
pub open spec fn option_method_symbol(m: Seq<char>, name: Seq<char>) -> Seq<char> {
    if m == "unwrap_or"@ {
        "riven_option_unwrap_or"@
    } else if m == "expect!"@ {
        "riven_option_expect"@
    } else if m == "unwrap!"@ {
        "riven_option_unwrap"@
    } else if m == "is_some"@ {
        "riven_option_is_some"@
    } else if m == "is_none"@ {
        "riven_option_is_none"@
    } else if m == "map"@ {
        "riven_noop_passthrough"@
    } else {
        "riven_noop_passthrough"@
    }
}

fn option_method_exec<'a>(m: &Vec<char>, name: &'a str) -> (r: &'a str)
    ensures
        r@ == option_method_symbol(m@, name@),
{
    if eq_lit(m, "unwrap_or") {
        "riven_option_unwrap_or"
    } else if eq_lit(m, "expect!") {
        "riven_option_expect"
    } else if eq_lit(m, "unwrap!") {
        "riven_option_unwrap"
    } else if eq_lit(m, "is_some") {
        "riven_option_is_some"
    } else if eq_lit(m, "is_none") {
        "riven_option_is_none"
    } else if eq_lit(m, "map") {
        "riven_noop_passthrough"
    } else {
        "riven_noop_passthrough"
    }
}

/// The runtime symbol for method `m` of the `result` family, `name` itself when there is none.
pub open spec fn result_method_symbol(m: Seq<char>, name: Seq<char>) -> Seq<char> {
    if m == "unwrap_or_else"@ {
        "riven_result_unwrap_or_else"@
    } else if m == "try_op"@ {
        "riven_result_try_op"@
    } else if m == "expect!"@ {
        "riven_result_expect"@
    } else if m == "unwrap!"@ {
        "riven_result_unwrap"@
    } else if m == "is_ok"@ {
        "riven_result_is_ok"@
    } else if m == "is_err"@ {
        "riven_result_is_err"@
    } else if m == "ok"@ {
        "riven_result_ok"@
    } else if m == "err"@ {
        "riven_result_err"@
    } else if m == "map_err"@ {
        "riven_noop_passthrough"@
    } else if m == "ok_or"@ {
        "riven_noop_passthrough"@
    } else {
        name
    }
}

fn result_method_exec<'a>(m: &Vec<char>, name: &'a str) -> (r: &'a str)
    ensures
        r@ == result_method_symbol(m@, name@),
{
    if eq_lit(m, "unwrap_or_else") {
        "riven_result_unwrap_or_else"
    } else if eq_lit(m, "try_op") {
        "riven_result_try_op"
    } else if eq_lit(m, "expect!") {
        "riven_result_expect"
    } else if eq_lit(m, "unwrap!") {
        "riven_result_unwrap"
    } else if eq_lit(m, "is_ok") {
        "riven_result_is_ok"
    } else if eq_lit(m, "is_err") {
        "riven_result_is_err"
    } else if eq_lit(m, "ok") {
        "riven_result_ok"
    } else if eq_lit(m, "err") {
        "riven_result_err"
    } else if eq_lit(m, "map_err") {
        "riven_noop_passthrough"
    } else if eq_lit(m, "ok_or") {
        "riven_noop_passthrough"
    } else {
        name
    }
}

/// The runtime symbol for method `m` of the `infer` family, `name` itself when there is none.
pub open spec fn infer_method_symbol(m: Seq<char>, name: Seq<char>) -> Seq<char> {
    if m == "try_op"@ {
        "riven_result_try_op"@
    } else if m == "ok_or"@ {
        "riven_noop_passthrough"@
    } else if m == "map_err"@ {
        "riven_noop_passthrough"@
    } else if m == "map"@ {
        "riven_noop_passthrough"@
    } else if m == "unwrap_or"@ {
        "riven_option_unwrap_or"@
    } else if m == "unwrap_or_else"@ {
        "riven_result_unwrap_or_else"@
    } else if m == "clone"@ {
        "riven_string_from"@
    } else if m == "to_string"@ {
        "riven_noop_passthrough"@
    } else if m == "to_s"@ {
        "riven_noop_passthrough"@
    } else if m == "from"@ {
        "riven_string_from"@
    } else if m == "push_str"@ {
        "riven_string_push_str"@
    } else if m == "trim"@ {
        "riven_string_trim"@
    } else if m == "to_lower"@ {
        "riven_string_to_lower"@
    } else if m == "len"@ {
        "riven_vec_len"@
    } else if m == "is_empty"@ {
        "riven_vec_is_empty"@
    } else if m == "push"@ {
        "riven_vec_push"@
    } else if m == "pop"@ {
        "riven_vec_pop"@
    } else if m == "get"@ {
        "riven_vec_get_opt"@
    } else if m == "get_mut"@ {
        "riven_vec_get_opt"@
    } else if m == "iter"@ {
        "riven_noop_passthrough"@
    } else if m == "into_iter"@ {
        "riven_noop_passthrough"@
    } else if m == "to_vec"@ {
        "riven_noop_passthrough"@
    } else if m == "each"@ {
        "riven_vec_each"@
    } else if m == "filter"@ {
        "riven_noop_passthrough"@
    } else if m == "enumerate"@ {
        "riven_noop_passthrough"@
    } else if m == "partition"@ {
        "riven_noop_passthrough"@
    } else if m == "find"@ {
        "riven_noop_return_null"@
    } else if m == "position"@ {
        "riven_noop_return_null"@
    } else if m == "message"@ {
        name
    } else if m == "summary"@ {
        name
    } else if m == "is_actionable"@ {
        name
    } else if m == "is_done"@ {
        name
    } else if m == "weight"@ {
        name
    } else if m == "id"@ {
        name
    } else if m == "title_ref"@ {
        name
    } else if m == "priority_ref"@ {
        name
    } else if m == "deadline_ref"@ {
        name
    } else if m == "serialize"@ {
        name
    } else if m == "is_overdue"@ {
        name
    } else if m == "to_display"@ {
        name
    } else if m == "assign"@ {
        name
    } else if m == "complete"@ {
        name
    } else if m == "cancel"@ {
        name
    } else {
        "riven_noop_passthrough"@
    }
}

fn infer_method_exec<'a>(m: &Vec<char>, name: &'a str) -> (r: &'a str)
    ensures
        r@ == infer_method_symbol(m@, name@),
{
    if eq_lit(m, "try_op") {
        "riven_result_try_op"
    } else if eq_lit(m, "ok_or") {
        "riven_noop_passthrough"
    } else if eq_lit(m, "map_err") {
        "riven_noop_passthrough"
    } else if eq_lit(m, "map") {
        "riven_noop_passthrough"
    } else if eq_lit(m, "unwrap_or") {
        "riven_option_unwrap_or"
    } else if eq_lit(m, "unwrap_or_else") {
        "riven_result_unwrap_or_else"
    } else if eq_lit(m, "clone") {
        "riven_string_from"
    } else if eq_lit(m, "to_string") {
        "riven_noop_passthrough"
    } else if eq_lit(m, "to_s") {
        "riven_noop_passthrough"
    } else if eq_lit(m, "from") {
        "riven_string_from"
    } else if eq_lit(m, "push_str") {
        "riven_string_push_str"
    } else if eq_lit(m, "trim") {
        "riven_string_trim"
    } else if eq_lit(m, "to_lower") {
        "riven_string_to_lower"
    } else if eq_lit(m, "len") {
        "riven_vec_len"
    } else if eq_lit(m, "is_empty") {
        "riven_vec_is_empty"
    } else if eq_lit(m, "push") {
        "riven_vec_push"
    } else if eq_lit(m, "pop") {
        "riven_vec_pop"
    } else if eq_lit(m, "get") {
        "riven_vec_get_opt"
    } else if eq_lit(m, "get_mut") {
        "riven_vec_get_opt"
    } else if eq_lit(m, "iter") {
        "riven_noop_passthrough"
    } else if eq_lit(m, "into_iter") {
        "riven_noop_passthrough"
    } else if eq_lit(m, "to_vec") {
        "riven_noop_passthrough"
    } else if eq_lit(m, "each") {
        "riven_vec_each"
    } else if eq_lit(m, "filter") {
        "riven_noop_passthrough"
    } else if eq_lit(m, "enumerate") {
        "riven_noop_passthrough"
    } else if eq_lit(m, "partition") {
        "riven_noop_passthrough"
    } else if eq_lit(m, "find") {
        "riven_noop_return_null"
    } else if eq_lit(m, "position") {
        "riven_noop_return_null"
    } else if eq_lit(m, "message") {
        name
    } else if eq_lit(m, "summary") {
        name
    } else if eq_lit(m, "is_actionable") {
        name
    } else if eq_lit(m, "is_done") {
        name
    } else if eq_lit(m, "weight") {
        name
    } else if eq_lit(m, "id") {
        name
    } else if eq_lit(m, "title_ref") {
        name
    } else if eq_lit(m, "priority_ref") {
        name
    } else if eq_lit(m, "deadline_ref") {
        name
    } else if eq_lit(m, "serialize") {
        name
    } else if eq_lit(m, "is_overdue") {
        name
    } else if eq_lit(m, "to_display") {
        name
    } else if eq_lit(m, "assign") {
        name
    } else if eq_lit(m, "complete") {
        name
    } else if eq_lit(m, "cancel") {
        name
    } else {
        "riven_noop_passthrough"
    }
}

/// The runtime symbol a Riven function or method name maps to.
pub open spec fn runtime_name_spec(name: Seq<char>) -> Seq<char> {
    match direct_runtime_name(name) {
        Some(s) => s,
        None => {
            let m = method_name_spec(name);
            if starts_with(name, "Fn("@) || starts_with(name, "Fn["@) {
                "riven_noop_passthrough"@
            } else if starts_with(name, "VecIter"@) || starts_with(name, "VecIntoIter"@)
                || starts_with(name, "SplitIter"@) {
                iter_method_symbol(m, name)
            } else if starts_with(name, "Hash["@) || starts_with(name, "Hash_"@) {
                hash_method_symbol(m, name)
            } else if starts_with(name, "Set["@) || starts_with(name, "Set_"@) {
                set_method_symbol(m, name)
            } else if starts_with(name, "Vec"@) {
                vec_method_symbol(m, name)
            } else if starts_with(name, "Option"@) || contains_sub(name, "Option["@) {
                option_method_symbol(m, name)
            } else if starts_with(name, "Result"@) || contains_sub(name, "Result["@) {
                result_method_symbol(m, name)
            } else if starts_with(name, "?T"@) || starts_with(name, "?"@) {
                infer_method_symbol(m, name)
            } else {
                name
            }
        },
    }
}

/// Maps Riven built-in function names to their runtime C names.
///
/// Handles both top-level functions (puts, eputs) and mangled method
/// names for built-in types (String_from, Vec_push, etc.); a name it does
/// not know is returned unchanged.
pub fn runtime_name(name: &str) -> (r: &str)
    ensures
        r@ == runtime_name_spec(name@),
{
    let cs = chars_of(name);
    match direct_runtime_name_exec(&cs) {
        Some(s) => {
            return s;
        },
        None => {},
    }
    let method = extract_method_name(name);
    let m = chars_of(method);
    if starts_with_lit(&cs, "Fn(") || starts_with_lit(&cs, "Fn[") {
        return "riven_noop_passthrough";
    }
    if starts_with_lit(&cs, "VecIter") || starts_with_lit(&cs, "VecIntoIter") || starts_with_lit(&cs, "SplitIter") {
        return iter_method_exec(&m, name);
    }
    if starts_with_lit(&cs, "Hash[") || starts_with_lit(&cs, "Hash_") {
        return hash_method_exec(&m, name);
    }
    if starts_with_lit(&cs, "Set[") || starts_with_lit(&cs, "Set_") {
        return set_method_exec(&m, name);
    }
    if starts_with_lit(&cs, "Vec") {
        return vec_method_exec(&m, name);
    }
    if starts_with_lit(&cs, "Option") || contains_lit(&cs, "Option[") {
        return option_method_exec(&m, name);
    }
    if starts_with_lit(&cs, "Result") || contains_lit(&cs, "Result[") {
        return result_method_exec(&m, name);
    }
    if starts_with_lit(&cs, "?T") || starts_with_lit(&cs, "?") {
        return infer_method_exec(&m, name);
    }
    name
}

/// Every literal that spells `riven_` first begins with `riven_`.
proof fn lemma_riven_prefixed(s: Seq<char>)
    requires
        6 <= s.len(),
        s[0] == 'r' && s[1] == 'i' && s[2] == 'v' && s[3] == 'e' && s[4] == 'n' && s[5] == '_',
    ensures
        starts_with(s, "riven_"@),
{
    reveal_strlit("riven_");
    assert(s.subrange(0, 6) =~= "riven_"@);
}

/// A mapped name: `name` itself, or a runtime symbol, which begins with `riven_`.
pub open spec fn passes_or_maps(r: Seq<char>, name: Seq<char>) -> bool {
    r == name || starts_with(r, "riven_"@)
}

proof fn lemma_iter_method_symbol_range(m: Seq<char>, name: Seq<char>)
    ensures
        passes_or_maps(iter_method_symbol(m, name), name),
{
    reveal_strlit("riven_noop_passthrough");
    reveal_strlit("riven_noop_return_null");
    lemma_riven_prefixed("riven_noop_passthrough"@);
    lemma_riven_prefixed("riven_noop_return_null"@);
}

proof fn lemma_hash_method_symbol_range(m: Seq<char>, name: Seq<char>)
    ensures
        passes_or_maps(hash_method_symbol(m, name), name),
{
    reveal_strlit("riven_hash_contains_key");
    reveal_strlit("riven_hash_get");
    reveal_strlit("riven_hash_insert");
    reveal_strlit("riven_hash_is_empty");
    reveal_strlit("riven_hash_len");
    reveal_strlit("riven_hash_new");
    lemma_riven_prefixed("riven_hash_contains_key"@);
    lemma_riven_prefixed("riven_hash_get"@);
    lemma_riven_prefixed("riven_hash_insert"@);
    lemma_riven_prefixed("riven_hash_is_empty"@);
    lemma_riven_prefixed("riven_hash_len"@);
    lemma_riven_prefixed("riven_hash_new"@);
}

proof fn lemma_set_method_symbol_range(m: Seq<char>, name: Seq<char>)
    ensures
        passes_or_maps(set_method_symbol(m, name), name),
{
    reveal_strlit("riven_set_contains");
    reveal_strlit("riven_set_insert");
    reveal_strlit("riven_set_is_empty");
    reveal_strlit("riven_set_len");
    reveal_strlit("riven_set_new");
    lemma_riven_prefixed("riven_set_contains"@);
    lemma_riven_prefixed("riven_set_insert"@);
    lemma_riven_prefixed("riven_set_is_empty"@);
    lemma_riven_prefixed("riven_set_len"@);
    lemma_riven_prefixed("riven_set_new"@);
}

proof fn lemma_vec_method_symbol_range(m: Seq<char>, name: Seq<char>)
    ensures
        passes_or_maps(vec_method_symbol(m, name), name),
{
    reveal_strlit("riven_noop_passthrough");
    reveal_strlit("riven_vec_each");
    reveal_strlit("riven_vec_get_opt");
    reveal_strlit("riven_vec_is_empty");
    reveal_strlit("riven_vec_len");
    reveal_strlit("riven_vec_new");
    reveal_strlit("riven_vec_pop");
    reveal_strlit("riven_vec_push");
    lemma_riven_prefixed("riven_noop_passthrough"@);
    lemma_riven_prefixed("riven_vec_each"@);
    lemma_riven_prefixed("riven_vec_get_opt"@);
    lemma_riven_prefixed("riven_vec_is_empty"@);
    lemma_riven_prefixed("riven_vec_len"@);
    lemma_riven_prefixed("riven_vec_new"@);
    lemma_riven_prefixed("riven_vec_pop"@);
    lemma_riven_prefixed("riven_vec_push"@);
}

proof fn lemma_option_method_symbol_range(m: Seq<char>, name: Seq<char>)
    ensures
        passes_or_maps(option_method_symbol(m, name), name),
{
    reveal_strlit("riven_noop_passthrough");
    reveal_strlit("riven_option_expect");
    reveal_strlit("riven_option_is_none");
    reveal_strlit("riven_option_is_some");
    reveal_strlit("riven_option_unwrap");
    reveal_strlit("riven_option_unwrap_or");
    lemma_riven_prefixed("riven_noop_passthrough"@);
    lemma_riven_prefixed("riven_option_expect"@);
    lemma_riven_prefixed("riven_option_is_none"@);
    lemma_riven_prefixed("riven_option_is_some"@);
    lemma_riven_prefixed("riven_option_unwrap"@);
    lemma_riven_prefixed("riven_option_unwrap_or"@);
}

proof fn lemma_result_method_symbol_range(m: Seq<char>, name: Seq<char>)
    ensures
        passes_or_maps(result_method_symbol(m, name), name),
{
    reveal_strlit("riven_noop_passthrough");
    reveal_strlit("riven_result_err");
    reveal_strlit("riven_result_expect");
    reveal_strlit("riven_result_is_err");
    reveal_strlit("riven_result_is_ok");
    reveal_strlit("riven_result_ok");
    reveal_strlit("riven_result_try_op");
    reveal_strlit("riven_result_unwrap");
    reveal_strlit("riven_result_unwrap_or_else");
    lemma_riven_prefixed("riven_noop_passthrough"@);
    lemma_riven_prefixed("riven_result_err"@);
    lemma_riven_prefixed("riven_result_expect"@);
    lemma_riven_prefixed("riven_result_is_err"@);
    lemma_riven_prefixed("riven_result_is_ok"@);
    lemma_riven_prefixed("riven_result_ok"@);
    lemma_riven_prefixed("riven_result_try_op"@);
    lemma_riven_prefixed("riven_result_unwrap"@);
    lemma_riven_prefixed("riven_result_unwrap_or_else"@);
}

proof fn lemma_infer_method_symbol_range(m: Seq<char>, name: Seq<char>)
    ensures
        passes_or_maps(infer_method_symbol(m, name), name),
{
    reveal_strlit("riven_noop_passthrough");
    reveal_strlit("riven_noop_return_null");
    reveal_strlit("riven_option_unwrap_or");
    reveal_strlit("riven_result_try_op");
    reveal_strlit("riven_result_unwrap_or_else");
    reveal_strlit("riven_string_from");
    reveal_strlit("riven_string_push_str");
    reveal_strlit("riven_string_to_lower");
    reveal_strlit("riven_string_trim");
    reveal_strlit("riven_vec_each");
    reveal_strlit("riven_vec_get_opt");
    reveal_strlit("riven_vec_is_empty");
    reveal_strlit("riven_vec_len");
    reveal_strlit("riven_vec_pop");
    reveal_strlit("riven_vec_push");
    lemma_riven_prefixed("riven_noop_passthrough"@);
    lemma_riven_prefixed("riven_noop_return_null"@);
    lemma_riven_prefixed("riven_option_unwrap_or"@);
    lemma_riven_prefixed("riven_result_try_op"@);
    lemma_riven_prefixed("riven_result_unwrap_or_else"@);
    lemma_riven_prefixed("riven_string_from"@);
    lemma_riven_prefixed("riven_string_push_str"@);
    lemma_riven_prefixed("riven_string_to_lower"@);
    lemma_riven_prefixed("riven_string_trim"@);
    lemma_riven_prefixed("riven_vec_each"@);
    lemma_riven_prefixed("riven_vec_get_opt"@);
    lemma_riven_prefixed("riven_vec_is_empty"@);
    lemma_riven_prefixed("riven_vec_len"@);
    lemma_riven_prefixed("riven_vec_pop"@);
    lemma_riven_prefixed("riven_vec_push"@);
}

proof fn lemma_direct_runtime_name_range(name: Seq<char>)
    ensures
        direct_runtime_name(name) matches Some(r) ==> starts_with(r, "riven_"@),
{
    reveal_strlit("riven_eputs");
    reveal_strlit("riven_noop");
    reveal_strlit("riven_noop_passthrough");
    reveal_strlit("riven_print");
    reveal_strlit("riven_puts");
    reveal_strlit("riven_str_parse_uint");
    reveal_strlit("riven_str_split");
    reveal_strlit("riven_string_chars");
    reveal_strlit("riven_string_from");
    reveal_strlit("riven_string_is_empty");
    reveal_strlit("riven_string_len");
    reveal_strlit("riven_string_push_str");
    reveal_strlit("riven_string_to_lower");
    reveal_strlit("riven_string_to_upper");
    reveal_strlit("riven_string_trim");
    lemma_riven_prefixed("riven_eputs"@);
    lemma_riven_prefixed("riven_noop"@);
    lemma_riven_prefixed("riven_noop_passthrough"@);
    lemma_riven_prefixed("riven_print"@);
    lemma_riven_prefixed("riven_puts"@);
    lemma_riven_prefixed("riven_str_parse_uint"@);
    lemma_riven_prefixed("riven_str_split"@);
    lemma_riven_prefixed("riven_string_chars"@);
    lemma_riven_prefixed("riven_string_from"@);
    lemma_riven_prefixed("riven_string_is_empty"@);
    lemma_riven_prefixed("riven_string_len"@);
    lemma_riven_prefixed("riven_string_push_str"@);
    lemma_riven_prefixed("riven_string_to_lower"@);
    lemma_riven_prefixed("riven_string_to_upper"@);
    lemma_riven_prefixed("riven_string_trim"@);
}

/// A name is either passed through unchanged, to be resolved at link time, or mapped
/// to a symbol of the C runtime, whose names all begin with `riven_`.
pub proof fn law_runtime_name_passes_or_maps(name: Seq<char>)
    ensures
        passes_or_maps(runtime_name_spec(name), name),
{
    let m = method_name_spec(name);
    lemma_direct_runtime_name_range(name);
    reveal_strlit("riven_noop_passthrough");
    lemma_riven_prefixed("riven_noop_passthrough"@);
    lemma_iter_method_symbol_range(m, name);
    lemma_hash_method_symbol_range(m, name);
    lemma_set_method_symbol_range(m, name);
    lemma_vec_method_symbol_range(m, name);
    lemma_option_method_symbol_range(m, name);
    lemma_result_method_symbol_range(m, name);
    lemma_infer_method_symbol_range(m, name);
}


/// A `]_` pair starts at `p` in `s`.
pub open spec fn pair_at(s: Seq<char>, p: int) -> bool {
    0 <= p && p + 2 <= s.len() && s[p] == ']' && s[p + 1] == '_'
}

proof fn lemma_last_pair_is_last(s: Seq<char>, j: int)
    requires
        j <= s.len(),
    ensures
        match last_pair_before(s, j) {
            Some(p) => pair_at(s, p) && p + 2 <= j && forall|q: int| p < q && q + 2 <= j ==> !pair_at(s, q),
            None => forall|q: int| q + 2 <= j ==> !pair_at(s, q),
        },
    decreases j,
{
    if 2 <= j && !(s[j - 2] == ']' && s[j - 1] == '_') {
        lemma_last_pair_is_last(s, j - 1);
    }
}

proof fn lemma_first_from_is_first(s: Seq<char>, c: char, i: int)
    requires
        0 <= i,
    ensures
        match first_from(s, c, i) {
            Some(p) => i <= p < s.len() && s[p] == c && forall|q: int| i <= q < p ==> s[q] != c,
            None => forall|q: int| i <= q < s.len() ==> s[q] != c,
        },
    decreases s.len() - i,
{
    if i < s.len() && s[i] != c {
        lemma_first_from_is_first(s, c, i + 1);
    }
}

/// The method part of a mangled name is a suffix of it: what follows the last `]_` when
/// there is one, else what follows the first `_`, else the whole name.
pub proof fn law_method_name_is_suffix(s: Seq<char>)
    ensures
        method_name_spec(s).len() <= s.len(),
        method_name_spec(s) == s.subrange(s.len() - method_name_spec(s).len(), s.len() as int),
        (exists|p: int| pair_at(s, p)) ==> {
            let start = s.len() - method_name_spec(s).len();
            &&& pair_at(s, start - 2)
            &&& forall|q: int| pair_at(s, q) ==> q <= start - 2
        },
        (forall|p: int| !pair_at(s, p)) ==> match first_from(s, '_', 0) {
            Some(u) => method_name_spec(s) == s.subrange(u + 1, s.len() as int) && forall|q: int| 0 <= q < u ==> s[q] != '_',
            None => method_name_spec(s) == s && forall|q: int| 0 <= q < s.len() ==> s[q] != '_',
        },
{
    lemma_last_pair_is_last(s, s.len() as int);
    lemma_first_from_is_first(s, '_', 0);
    match last_pair_before(s, s.len() as int) {
        Some(p) => {
            assert(method_name_spec(s).len() == s.len() - (p + 2));
        },
        None => {
            match first_from(s, '_', 0) {
                Some(u) => {},
                None => { assert(s.subrange(0, s.len() as int) =~= s); },
            }
        },
    }
}

} // verus!
