//! Splitting short-form port strings into their `:`-separated fields.

use vstd::prelude::*;

use crate::text::last_index_of;

verus! {

/// The brace depth after one more character `c`, from depth `d`: `{`
/// opens a level, `}` closes one but never goes below zero.
pub open spec fn depth_step(d: int, c: char) -> int {
    if c == '{' {
        d + 1
    } else if c == '}' {
        if d > 0 { d - 1 } else { 0 }
    } else {
        d
    }
}

/// The brace depth after reading `s`, starting from depth `d`.
pub open spec fn depth_after(d: int, s: Seq<char>) -> int
    decreases s.len(),
{
    if s.len() == 0 {
        d
    } else {
        depth_step(depth_after(d, s.drop_last()), s.last())
    }
}

/// The brace depth after reading `s` from the start of a port string.
pub open spec fn brace_depth(s: Seq<char>) -> int {
    depth_after(0, s)
}

/// Position `i` of `s` separates two fields: it holds a `:` that stands
/// outside every `{...}` (such as the `:-` of a `${VAR:-default}`).
pub open spec fn is_separator(s: Seq<char>, i: int) -> bool {
    &&& 0 <= i < s.len()
    &&& s[i] == ':'
    &&& brace_depth(s.take(i)) == 0
}

/// The last separator of `s` before position `k`, or -1 when there is none.
pub open spec fn last_separator_before(s: Seq<char>, k: int) -> int
    decreases k,
{
    if k <= 0 {
        -1
    } else if is_separator(s, k - 1) {
        k - 1
    } else {
        last_separator_before(s, k - 1)
    }
}

/// `last_separator_before` names the last separator before `k`, if any.
pub proof fn lemma_last_separator_range(s: Seq<char>, k: int)
    ensures
        -1 <= last_separator_before(s, k) < if k > 0 { k } else { 0 },
        last_separator_before(s, k) >= 0 ==> is_separator(s, last_separator_before(s, k)),
        forall|i: int|
            last_separator_before(s, k) < i < k ==> !#[trigger] is_separator(s, i),
    decreases k,
{
    if k > 0 {
        lemma_last_separator_range(s, k - 1);
    }
}

/// The fields of a short-form port string: the pieces between its separators.
pub open spec fn port_fields(s: Seq<char>) -> Seq<Seq<char>>
    decreases s.len(),
{
    let j = last_separator_before(s, s.len() as int);
    if j < 0 {
        seq![s]
    } else {
        proof {
            lemma_last_separator_range(s, s.len() as int);
        }
        port_fields(s.take(j)).push(s.skip(j + 1))
    }
}

/// The fields joined back together, with `:` between neighbours.
pub open spec fn join_fields(fields: Seq<Seq<char>>) -> Seq<char>
    decreases fields.len(),
{
    if fields.len() <= 1 {
        if fields.len() == 1 { fields[0] } else { Seq::empty() }
    } else {
        join_fields(fields.drop_last()) + seq![':'] + fields.last()
    }
}

/// A prefix of `s` has the same separators as `s` before its end.
proof fn lemma_prefix_separators(s: Seq<char>, m: int, k: int)
    requires
        0 <= k <= m <= s.len(),
    ensures
        last_separator_before(s.take(m), k) == last_separator_before(s, k),
    decreases k,
{
    if k > 0 {
        assert(s.take(m).take(k - 1) =~= s.take(k - 1));
        lemma_prefix_separators(s, m, k - 1);
    }
}

/// The fields of `s.take(k)`, where `start - 1` is the last separator before `k`.
proof fn lemma_fields_step(s: Seq<char>, k: int, start: int)
    requires
        0 <= k <= s.len(),
        start == last_separator_before(s, k) + 1,
    ensures
        port_fields(s.take(k)) == (if start == 0 {
            Seq::<Seq<char>>::empty()
        } else {
            port_fields(s.take(start - 1))
        }).push(s.subrange(start, k)),
{
    let t = s.take(k);
    lemma_prefix_separators(s, k, k);
    lemma_last_separator_range(s, k);
    assert(t.len() == k);
    if start == 0 {
        assert(t =~= s.subrange(0, k));
        assert(port_fields(t) =~= seq![t]);
    } else {
        assert(t.take(start - 1) =~= s.take(start - 1));
        assert(t.skip(start) =~= s.subrange(start, k));
    }
}

/// Splits a short-form port string on `:`, except for a `:` nested inside
/// `{...}`: in `"${HOST_PORT:-8080}:8080"` the `:-` of the default belongs
/// to the variable reference and is no field delimiter.
pub fn split_port_string(raw: &str) -> (parts: Vec<&str>)
    ensures
        parts.len() == port_fields(raw@).len(),
        forall|i: int| 0 <= i < parts.len() ==> #[trigger] parts[i]@ == port_fields(raw@)[i],
{
    let n = raw.unicode_len();
    let mut parts: Vec<&str> = Vec::new();
    let mut depth: usize = 0;
    let mut start: usize = 0;
    let mut k: usize = 0;
    while k < n
        invariant
            n == raw@.len(),
            k <= n,
            depth == brace_depth(raw@.take(k as int)),
            depth <= k,
            start == last_separator_before(raw@, k as int) + 1,
            start <= k,
            start == 0 ==> parts.len() == 0,
            start > 0 ==> parts.len() == port_fields(raw@.take(start - 1)).len(),
            start > 0 ==> forall|i: int|
                0 <= i < parts.len() ==> #[trigger] parts[i]@ == port_fields(
                    raw@.take(start - 1),
                )[i],
        decreases n - k,
    {
        let ghost s = raw@;
        proof {
            lemma_last_separator_range(s, k as int);
            assert(s.take(k + 1).drop_last() =~= s.take(k as int));
        }
        let ch = raw.get_char(k);
        if ch == '{' {
            depth = depth + 1;
        } else if ch == '}' {
            if depth > 0 {
                depth = depth - 1;
            }
        } else if ch == ':' && depth == 0 {
            proof {
                lemma_fields_step(s, k as int, start as int);
            }
            parts.push(raw.substring_char(start, k));
            start = k + 1;
        }
        k = k + 1;
    }
    proof {
        lemma_fields_step(raw@, n as int, start as int);
        assert(raw@.take(n as int) =~= raw@);
    }
    parts.push(raw.substring_char(start, n));
    parts
}

/// Joining the fields of a port string with `:` gives back the string:
/// splitting neither drops nor adds a character.
pub proof fn lemma_fields_rejoin(s: Seq<char>)
    ensures
        join_fields(port_fields(s)) == s,
    decreases s.len(),
{
    let j = last_separator_before(s, s.len() as int);
    lemma_last_separator_range(s, s.len() as int);
    if j >= 0 {
        let f = port_fields(s.take(j));
        lemma_fields_rejoin(s.take(j));
        lemma_port_fields_nonempty(s.take(j));
        assert(f.push(s.skip(j + 1)).drop_last() =~= f);
        assert(s.take(j) + seq![':'] + s.skip(j + 1) =~= s);
    }
}

/// A port string always has at least one field.
pub proof fn lemma_port_fields_nonempty(s: Seq<char>)
    ensures
        port_fields(s).len() >= 1,
    decreases s.len(),
{
    let j = last_separator_before(s, s.len() as int);
    lemma_last_separator_range(s, s.len() as int);
    if j >= 0 {
        lemma_port_fields_nonempty(s.take(j));
    }
}


/// Reading `a` then `b` reaches the depth of reading `a + b`.
proof fn lemma_depth_concat(d: int, a: Seq<char>, b: Seq<char>)
    ensures
        depth_after(d, a + b) == depth_after(depth_after(d, a), b),
    decreases b.len(),
{
    if b.len() == 0 {
        assert(a + b =~= a);
    } else {
        assert((a + b).drop_last() =~= a + b.drop_last());
        lemma_depth_concat(d, a, b.drop_last());
    }
}

/// The separators of `x + ":" + y` past `x`, where `x` closes every brace it
/// opens, are those of `y`, shifted.
proof fn lemma_separators_after(x: Seq<char>, y: Seq<char>, k: int)
    requires
        brace_depth(x) == 0,
        0 <= k <= y.len(),
    ensures
        last_separator_before(x + seq![':'] + y, x.len() + 1 + k) == if last_separator_before(y, k)
            >= 0 {
            x.len() + 1 + last_separator_before(y, k)
        } else {
            x.len() as int
        },
    decreases k,
{
    let s = x + seq![':'] + y;
    if k == 0 {
        assert(s.take(x.len() as int) =~= x);
        assert(s[x.len() as int] == ':');
        assert(is_separator(s, x.len() as int));
    } else {
        lemma_separators_after(x, y, k - 1);
        let i = x.len() + k;
        assert(s[i] == y[k - 1]);
        assert(s.take(i) =~= (x + seq![':']) + y.take(k - 1));
        lemma_depth_concat(0, x + seq![':'], y.take(k - 1));
        assert((x + seq![':']).drop_last() =~= x);
        assert(is_separator(s, i) == is_separator(y, k - 1));
    }
}

/// Fields split at a separator that stands outside every brace: the fields
/// of `x + ":" + y` are those of `x` followed by those of `y`, whenever `x`
/// closes every brace it opens.
pub proof fn lemma_fields_concat(x: Seq<char>, y: Seq<char>)
    requires
        brace_depth(x) == 0,
    ensures
        port_fields(x + seq![':'] + y) == port_fields(x) + port_fields(y),
    decreases y.len(),
{
    let s = x + seq![':'] + y;
    lemma_separators_after(x, y, y.len() as int);
    lemma_last_separator_range(y, y.len() as int);
    assert(s.len() == x.len() + 1 + y.len());
    let j = last_separator_before(y, y.len() as int);
    if j >= 0 {
        let yj = y.take(j);
        assert(s.take(x.len() + 1 + j) =~= x + seq![':'] + yj);
        assert(s.skip(x.len() + 1 + j + 1) =~= y.skip(j + 1));
        lemma_fields_concat(x, yj);
        assert(port_fields(y) == port_fields(yj).push(y.skip(j + 1)));
        assert(port_fields(s) =~= port_fields(x) + port_fields(y));
    } else {
        assert(s.take(x.len() as int) =~= x);
        assert(s.skip(x.len() + 1int) =~= y);
        assert(port_fields(y) == seq![y]);
        assert(port_fields(s) =~= port_fields(x) + port_fields(y));
    }
}

/// A string with no `:`, `{` or `}` is a single field at depth zero.
pub proof fn lemma_plain_field(p: Seq<char>)
    requires
        forall|i: int| 0 <= i < p.len() ==> p[i] != ':' && p[i] != '{' && p[i] != '}',
    ensures
        port_fields(p) == seq![p],
        brace_depth(p) == 0,
{
    lemma_plain_depth(p, p.len() as int);
    assert(p.take(p.len() as int) =~= p);
    lemma_no_separator(p, p.len() as int);
}

proof fn lemma_plain_depth(p: Seq<char>, k: int)
    requires
        0 <= k <= p.len(),
        forall|i: int| 0 <= i < p.len() ==> p[i] != '{' && p[i] != '}',
    ensures
        brace_depth(p.take(k)) == 0,
    decreases k,
{
    if k > 0 {
        assert(p.take(k).drop_last() =~= p.take(k - 1));
        lemma_plain_depth(p, k - 1);
    }
    if k == p.len() {
        assert(p.take(k) =~= p);
    }
}

proof fn lemma_no_separator(p: Seq<char>, k: int)
    requires
        0 <= k <= p.len(),
        forall|i: int| 0 <= i < p.len() ==> p[i] != ':',
    ensures
        last_separator_before(p, k) == -1,
    decreases k,
{
    if k > 0 {
        lemma_no_separator(p, k - 1);
    }
}

/// The reference `${name}` to an environment variable, where `name` may
/// hold a `:-default`.
pub open spec fn variable_reference(name: Seq<char>) -> Seq<char> {
    seq!['$', '{'] + name + seq!['}']
}

proof fn lemma_reference_depth(name: Seq<char>, k: int)
    requires
        0 <= k <= name.len(),
        forall|i: int| 0 <= i < name.len() ==> name[i] != '{' && name[i] != '}',
    ensures
        brace_depth(variable_reference(name).take(2 + k)) == 1,
    decreases k,
{
    let w = variable_reference(name);
    if k == 0 {
        let one = seq!['$'];
        let two = seq!['$', '{'];
        assert(w.take(2) =~= two);
        assert(two.drop_last() =~= one);
        assert(one.drop_last() =~= Seq::<char>::empty());
        assert(depth_after(0, Seq::<char>::empty()) == 0);
        assert(one.last() == '$');
        assert(depth_after(0, one) == 0);
        assert(two.last() == '{');
        assert(depth_after(0, two) == 1);
    } else {
        lemma_reference_depth(name, k - 1);
        assert(w.take(2 + k).drop_last() =~= w.take(2 + k - 1));
        assert(w[2 + k - 1] == name[k - 1]);
    }
}

proof fn lemma_reference_no_separator(name: Seq<char>, k: int)
    requires
        0 <= k <= name.len() + 3,
        forall|i: int| 0 <= i < name.len() ==> name[i] != '{' && name[i] != '}',
    ensures
        last_separator_before(variable_reference(name), k) == -1,
    decreases k,
{
    let w = variable_reference(name);
    if k > 0 {
        lemma_reference_no_separator(name, k - 1);
        let i = k - 1;
        if 2 <= i < 2 + name.len() {
            lemma_reference_depth(name, i - 2);
        }
        if i < 2 || i == 2 + name.len() {
            assert(w[i] != ':');
        }
    }
}

/// A variable reference `${name}` is one field, and closes its brace: the
/// `:` of a `${NAME:-default}` separates nothing.
pub proof fn lemma_reference_is_one_field(name: Seq<char>)
    requires
        forall|i: int| 0 <= i < name.len() ==> name[i] != '{' && name[i] != '}',
    ensures
        port_fields(variable_reference(name)) == seq![variable_reference(name)],
        brace_depth(variable_reference(name)) == 0,
{
    let w = variable_reference(name);
    lemma_reference_no_separator(name, w.len() as int);
    lemma_reference_depth(name, name.len() as int);
    assert(w.take(w.len() as int) =~= w);
    assert(w.take(w.len() as int).drop_last() =~= w.take(2 + name.len() as int));
}

/// A host port given as `${NAME:-default}` and a plain container port make
/// two fields, whatever `:` the variable reference holds: no host IP is
/// read out of the reference.
pub proof fn lemma_variable_host_port(name: Seq<char>, container: Seq<char>)
    requires
        forall|i: int| 0 <= i < name.len() ==> name[i] != '{' && name[i] != '}',
        forall|i: int|
            0 <= i < container.len() ==> container[i] != ':' && container[i] != '{'
                && container[i] != '}',
    ensures
        port_fields(variable_reference(name) + seq![':'] + container) == seq![
            variable_reference(name),
            container,
        ],
{
    lemma_reference_is_one_field(name);
    lemma_plain_field(container);
    lemma_fields_concat(variable_reference(name), container);
    assert(seq![variable_reference(name)] + seq![container] =~= seq![
        variable_reference(name),
        container,
    ]);
}

/// A host IP, a host port given as `${NAME:-default}`, and a plain
/// container port make three fields, the first being the host IP.
pub proof fn lemma_host_ip_with_variable_port(ip: Seq<char>, name: Seq<char>, container: Seq<char>)
    requires
        forall|i: int| 0 <= i < ip.len() ==> ip[i] != ':' && ip[i] != '{' && ip[i] != '}',
        forall|i: int| 0 <= i < name.len() ==> name[i] != '{' && name[i] != '}',
        forall|i: int|
            0 <= i < container.len() ==> container[i] != ':' && container[i] != '{'
                && container[i] != '}',
    ensures
        port_fields(ip + seq![':'] + variable_reference(name) + seq![':'] + container) == seq![
            ip,
            variable_reference(name),
            container,
        ],
{
    lemma_plain_field(ip);
    lemma_variable_host_port(name, container);
    let rest = variable_reference(name) + seq![':'] + container;
    lemma_fields_concat(ip, rest);
    assert(ip + seq![':'] + variable_reference(name) + seq![':'] + container =~= ip + seq![':']
        + rest);
    assert(seq![ip] + seq![variable_reference(name), container] =~= seq![
        ip,
        variable_reference(name),
        container,
    ]);
}


/// The number of separators of `s` before position `k`.
pub open spec fn separators_before(s: Seq<char>, k: int) -> nat
    decreases k,
{
    if k <= 0 {
        0
    } else {
        separators_before(s, k - 1) + if is_separator(s, k - 1) { 1nat } else { 0nat }
    }
}

/// A prefix of `s` has the separators of `s` before its end.
proof fn lemma_prefix_is_separator(s: Seq<char>, m: int, i: int)
    requires
        0 <= i < m <= s.len(),
    ensures
        is_separator(s.take(m), i) == is_separator(s, i),
{
    assert(s.take(m).take(i) =~= s.take(i));
}

proof fn lemma_prefix_count(s: Seq<char>, m: int, k: int)
    requires
        0 <= k <= m <= s.len(),
    ensures
        separators_before(s.take(m), k) == separators_before(s, k),
    decreases k,
{
    if k > 0 {
        lemma_prefix_count(s, m, k - 1);
        lemma_prefix_is_separator(s, m, k - 1);
    }
}

proof fn lemma_count_gap(s: Seq<char>, a: int, k: int)
    requires
        0 <= a <= k,
        forall|i: int| a <= i < k ==> !#[trigger] is_separator(s, i),
    ensures
        separators_before(s, k) == separators_before(s, a),
    decreases k - a,
{
    if k > a {
        lemma_count_gap(s, a, k - 1);
    }
}

/// A port string has one more field than it has separators: one field per
/// `:` outside every `{...}`, plus one.
pub proof fn lemma_field_count(s: Seq<char>)
    ensures
        port_fields(s).len() == 1 + separators_before(s, s.len() as int),
    decreases s.len(),
{
    let n = s.len() as int;
    let j = last_separator_before(s, n);
    lemma_last_separator_range(s, n);
    if j < 0 {
        lemma_count_gap(s, 0, n);
    } else {
        lemma_field_count(s.take(j));
        lemma_prefix_count(s, j, j);
        lemma_count_gap(s, j + 1, n);
    }
}

/// Each field of a port string holds no separator of its own: splitting a
/// field again gives back that field alone.
pub proof fn lemma_fields_resplit(s: Seq<char>)
    ensures
        forall|i: int|
            0 <= i < port_fields(s).len() ==> port_fields(#[trigger] port_fields(s)[i]) == seq![
                port_fields(s)[i],
            ],
    decreases s.len(),
{
    let n = s.len() as int;
    let j = last_separator_before(s, n);
    lemma_last_separator_range(s, n);
    if j < 0 {
        assert(port_fields(s) == seq![s]);
    } else {
        let x = s.take(j);
        let y = s.skip(j + 1);
        lemma_fields_resplit(x);
        assert(s =~= x + seq![':'] + y);
        assert(brace_depth(x) == 0);
        lemma_separators_after(x, y, y.len() as int);
        lemma_last_separator_range(y, y.len() as int);
        assert(last_separator_before(y, y.len() as int) < 0);
        assert(port_fields(y) == seq![y]);
        let f = port_fields(s);
        assert(f == port_fields(x).push(y));
        assert forall|i: int| 0 <= i < f.len() implies port_fields(#[trigger] f[i]) == seq![
            f[i],
        ] by {
            if i < port_fields(x).len() {
                assert(f[i] == port_fields(x)[i]);
            }
        }
    }
}

/// The fields of `s` cut at every `:`, as `str::split(':')` cuts.
pub open spec fn colon_split(s: Seq<char>) -> Seq<Seq<char>>
    decreases s.len(),
{
    let j = last_index_of(s, ':');
    if j < 0 {
        seq![s]
    } else {
        proof {
            crate::text::lemma_index_of(s, ':');
        }
        colon_split(s.take(j)).push(s.skip(j + 1))
    }
}

proof fn lemma_no_open_brace_depth(s: Seq<char>, k: int)
    requires
        0 <= k <= s.len(),
        !s.contains('{'),
    ensures
        brace_depth(s.take(k)) == 0,
    decreases k,
{
    if k > 0 {
        lemma_no_open_brace_depth(s, k - 1);
        assert(s.take(k).drop_last() =~= s.take(k - 1));
        assert(s.take(k).last() == s[k - 1]);
        assert(s[k - 1] != '{');
    }
}

proof fn lemma_no_open_brace_separators(s: Seq<char>, k: int)
    requires
        0 <= k <= s.len(),
        !s.contains('{'),
    ensures
        last_separator_before(s, k) == last_index_of(s.take(k), ':'),
    decreases k,
{
    if k > 0 {
        lemma_no_open_brace_separators(s, k - 1);
        lemma_no_open_brace_depth(s, k - 1);
        assert(s.take(k).drop_last() =~= s.take(k - 1));
        assert(s.take(k).last() == s[k - 1]);
    }
}

/// Without any `{`, no `:` is shielded: a port string splits exactly as a
/// plain split on every `:`. A stray `}` shields nothing.
pub proof fn lemma_brace_free_split(s: Seq<char>)
    requires
        !s.contains('{'),
    ensures
        port_fields(s) == colon_split(s),
    decreases s.len(),
{
    let n = s.len() as int;
    lemma_no_open_brace_separators(s, n);
    assert(s.take(n) =~= s);
    let j = last_separator_before(s, n);
    lemma_last_separator_range(s, n);
    if j >= 0 {
        let x = s.take(j);
        assert(!x.contains('{')) by {
            if x.contains('{') {
                let k = choose|k: int| 0 <= k < x.len() && x[k] == '{';
                assert(s[k] == '{');
            }
        }
        lemma_brace_free_split(x);
    }
}

} // verus!
