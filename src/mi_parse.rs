use vstd::prelude::*;
use vstd::string::*;

verus! {

/// Mathematical model of a payload value: what an `MIRepr` denotes.
pub ghost enum Node {
    Text(Seq<char>),
    List(Seq<Node>),
    Fields(Seq<(Seq<char>, Node)>),
}

/// Generic nested representation of a record's payload.
#[derive(Debug, PartialEq)]
pub enum MIRepr {
    Array(Vec<MIRepr>),
    /// Named fields in the order they were read. In a value read from a
    /// payload the names are pairwise distinct (see `well_formed`).
    Tuple(Vec<(String, MIRepr)>),
    Literal(String),
}

impl MIRepr {
    pub open spec fn view(&self) -> Node
        decreases self,
    {
        match self {
            MIRepr::Literal(s) => Node::Text(s@),
            MIRepr::Array(v) => Node::List(
                Seq::new(
                    v.len() as nat,
                    |i: int|
                        if 0 <= i < v.len() {
                            v[i].view()
                        } else {
                            Node::Text(Seq::empty())
                        },
                ),
            ),
            MIRepr::Tuple(v) => Node::Fields(
                Seq::new(
                    v.len() as nat,
                    |i: int|
                        if 0 <= i < v.len() {
                            (v[i].0@, v[i].1.view())
                        } else {
                            (Seq::empty(), Node::Text(Seq::empty()))
                        },
                ),
            ),
        }
    }
}


/// Deepest nesting of braces and brackets that a payload may have.
pub const MAX_DEPTH: u64 = 64;

pub open spec fn views(v: Seq<MIRepr>) -> Seq<Node> {
    v.map_values(|x: MIRepr| x@)
}

pub open spec fn entry_views(v: Seq<(String, MIRepr)>) -> Seq<(Seq<char>, Node)> {
    v.map_values(|p: (String, MIRepr)| (p.0@, p.1@))
}

pub proof fn lemma_array_view(v: Vec<MIRepr>)
    ensures
        MIRepr::Array(v)@ == Node::List(views(v@)),
{
    let l = MIRepr::Array(v)@->List_0;
    assert forall|i: int| 0 <= i < v.len() implies l[i] == views(v@)[i] by {}
    assert(l =~= views(v@));
}

pub proof fn lemma_tuple_view(v: Vec<(String, MIRepr)>)
    ensures
        MIRepr::Tuple(v)@ == Node::Fields(entry_views(v@)),
{
    let l = MIRepr::Tuple(v)@->Fields_0;
    assert forall|i: int| 0 <= i < v.len() implies l[i] == entry_views(v@)[i] by {}
    assert(l =~= entry_views(v@));
}

/// Characters that may make up a field name.
pub open spec fn is_name_char(c: char) -> bool {
    ('a' <= c && c <= 'z') || ('A' <= c && c <= 'Z') || ('0' <= c && c <= '9') || c == '-' || c == '_'
}

/// Where the run of name characters that starts at `i` ends.
pub open spec fn name_end(s: Seq<char>, i: int) -> int
    decreases s.len() - i,
{
    if 0 <= i < s.len() && is_name_char(s[i]) {
        name_end(s, i + 1)
    } else {
        i
    }
}

/// Position of the first `c` at or after `i` (or the end of the text).
pub open spec fn find_char(s: Seq<char>, i: int, c: char) -> int
    decreases s.len() - i,
{
    if 0 <= i < s.len() && s[i] != c {
        find_char(s, i + 1, c)
    } else {
        i
    }
}

/// `name=` at `i`: a non-empty run of name characters and the `=` after it.
pub open spec fn spec_name(s: Seq<char>, i: int) -> Option<(Seq<char>, int)> {
    let j = name_end(s, i);
    if 0 <= i < j < s.len() && s[j] == '=' {
        Some((s.subrange(i, j), j + 1))
    } else {
        None
    }
}

/// `"text"` at `i`; the text holds no quote.
pub open spec fn spec_quoted(s: Seq<char>, i: int) -> Option<(Seq<char>, int)> {
    if 0 <= i < s.len() && s[i] == '"' {
        let j = find_char(s, i + 1, '"');
        if j < s.len() {
            Some((s.subrange(i + 1, j), j + 1))
        } else {
            None
        }
    } else {
        None
    }
}

/// A quoted literal at `i`.
pub open spec fn spec_literal(s: Seq<char>, i: int) -> Option<(Node, int)> {
    match spec_quoted(s, i) {
        Some((t, k)) => Some((Node::Text(t), k)),
        None => None,
    }
}

pub open spec fn has_repeated_name(ps: Seq<(Seq<char>, Node)>) -> bool {
    exists|a: int, b: int| 0 <= a < b < ps.len() && ps[a].0 == ps[b].0
}

pub open spec fn single_entry(p: (Seq<char>, Node)) -> Node {
    Node::Fields(seq![p])
}

/// A sequence of `name=value` pairs is a map when its names are distinct;
/// otherwise it is read as a list of one-entry maps, one per pair, so that
/// no pair is lost.
pub open spec fn resolve(ps: Seq<(Seq<char>, Node)>) -> Node {
    if has_repeated_name(ps) {
        Node::List(ps.map_values(|p: (Seq<char>, Node)| single_entry(p)))
    } else {
        Node::Fields(ps)
    }
}

/// A value at `i`: a map, a list or a quoted literal, nested at most `d` deep.
pub open spec fn spec_value(s: Seq<char>, i: int, d: nat) -> Option<(Node, int)>
    decreases d, s.len() - i, 1nat,
{
    match spec_tuple(s, i, d) {
        Some(r) => Some(r),
        None => match spec_array(s, i, d) {
            Some(r) => Some(r),
            None => spec_literal(s, i),
        },
    }
}

/// `name=value,...` at `i`, bare or in braces.
pub open spec fn spec_tuple(s: Seq<char>, i: int, d: nat) -> Option<(Node, int)>
    decreases d, s.len() - i, 0nat,
{
    if d == 0 || i < 0 || i >= s.len() {
        None
    } else if s[i] == '{' {
        match spec_pairs(s, i + 1, (d - 1) as nat) {
            Some((ps, k)) => if 0 <= k < s.len() && s[k] == '}' {
                Some((resolve(ps), k + 1))
            } else {
                None
            },
            None => None,
        }
    } else {
        match spec_pairs(s, i, (d - 1) as nat) {
            Some((ps, k)) => Some((resolve(ps), k)),
            None => None,
        }
    }
}

/// `[value,...]` at `i`, possibly empty.
pub open spec fn spec_array(s: Seq<char>, i: int, d: nat) -> Option<(Node, int)>
    decreases d, s.len() - i, 0nat,
{
    if d == 0 || i < 0 || i >= s.len() || s[i] != '[' {
        None
    } else {
        let (vs, k) = match spec_values(s, i + 1, (d - 1) as nat) {
            Some(r) => r,
            None => (Seq::empty(), i + 1),
        };
        if 0 <= k < s.len() && s[k] == ']' {
            Some((Node::List(vs), k + 1))
        } else {
            None
        }
    }
}

/// One or more values separated by commas, as many as can be read.
pub open spec fn spec_values(s: Seq<char>, i: int, d: nat) -> Option<(Seq<Node>, int)>
    decreases d, s.len() - i, 2nat,
{
    match spec_value(s, i, d) {
        None => None,
        Some((v, k)) => if i < k < s.len() && s[k] == ',' {
            match spec_values(s, k + 1, d) {
                Some((vs, e)) => Some((seq![v] + vs, e)),
                None => Some((seq![v], k)),
            }
        } else {
            Some((seq![v], k))
        },
    }
}

/// `name=value` at `i`.
pub open spec fn spec_pair(s: Seq<char>, i: int, d: nat) -> Option<((Seq<char>, Node), int)>
    decreases d, s.len() - i, 0nat,
{
    match spec_name(s, i) {
        None => None,
        Some((n, j)) => if i < j <= s.len() {
            match spec_value(s, j, d) {
                Some((v, k)) => Some(((n, v), k)),
                None => None,
            }
        } else {
            None
        },
    }
}

/// One or more pairs separated by commas, as many as can be read.
pub open spec fn spec_pairs(s: Seq<char>, i: int, d: nat) -> Option<(Seq<(Seq<char>, Node)>, int)>
    decreases d, s.len() - i, 1nat,
{
    match spec_pair(s, i, d) {
        None => None,
        Some((p, k)) => if i < k < s.len() && s[k] == ',' {
            match spec_pairs(s, k + 1, d) {
                Some((ps, e)) => Some((seq![p] + ps, e)),
                None => Some((seq![p], k)),
            }
        } else {
            Some((seq![p], k))
        },
    }
}

/// A payload at `i`: a map or a list. Gives the value and
/// where reading stopped.
pub open spec fn spec_payload(s: Seq<char>, i: int) -> Option<(Node, int)> {
    match spec_tuple(s, i, MAX_DEPTH as nat) {
        Some(r) => Some(r),
        None => spec_array(s, i, MAX_DEPTH as nat),
    }
}

/// Every map in the value has pairwise distinct names.
pub open spec fn well_formed(n: Node) -> bool
    decreases n,
{
    match n {
        Node::Text(_) => true,
        Node::List(vs) => forall|i: int| 0 <= i < vs.len() ==> well_formed(#[trigger] vs[i]),
        Node::Fields(ps) => !has_repeated_name(ps) && forall|i: int|
            0 <= i < ps.len() ==> well_formed(#[trigger] ps[i].1),
    }
}

/// A line or payload that could not be read, as it was given.
#[derive(Debug, Clone, PartialEq)]
pub struct ParseFailure {
    pub fragment: String,
}

/// The characters of `s`, one per element.
pub fn chars_of(s: &str) -> (r: Vec<char>)
    ensures
        r@ == s@,
{
    let n = s.unicode_len();
    let mut r: Vec<char> = Vec::new();
    let mut i: usize = 0;
    while i < n
        invariant
            n == s@.len(),
            i <= n,
            r@ == s@.subrange(0, i as int),
        decreases n - i,
    {
        r.push(s.get_char(i));
        i += 1;
    }
    assert(r@ =~= s@);
    r
}

fn name_char(c: char) -> (b: bool)
    ensures
        b == is_name_char(c),
{
    ('a' <= c && c <= 'z') || ('A' <= c && c <= 'Z') || ('0' <= c && c <= '9') || c == '-' || c == '_'
}

fn name_at(input: &str, cs: &Vec<char>, i: usize) -> (r: Option<(String, usize)>)
    requires
        cs@ == input@,
        i <= cs.len(),
    ensures
        match r {
            Some((n, j)) => spec_name(cs@, i as int) == Some((n@, j as int)) && i < j <= cs.len(),
            None => spec_name(cs@, i as int) is None,
        },
{
    let mut j = i;
    while j < cs.len() && name_char(cs[j])
        invariant
            i <= j <= cs.len(),
            name_end(cs@, j as int) == name_end(cs@, i as int),
        decreases cs.len() - j,
    {
        j += 1;
    }
    if i < j && j < cs.len() && cs[j] == '=' {
        let n = String::from_str(input.substring_char(i, j));
        Some((n, j + 1))
    } else {
        None
    }
}

/// The first position at or after `i` that holds `c`, or the end.
pub(crate) fn scan_to(cs: &Vec<char>, i: usize, c: char) -> (r: usize)
    requires
        i <= cs.len(),
    ensures
        r as int == find_char(cs@, i as int, c),
        i <= r <= cs.len(),
{
    let mut j = i;
    while j < cs.len() && cs[j] != c
        invariant
            i <= j <= cs.len(),
            find_char(cs@, j as int, c) == find_char(cs@, i as int, c),
        decreases cs.len() - j,
    {
        j += 1;
    }
    j
}

/// A double-quoted string at `i`, without its quotes.
pub(crate) fn quoted(input: &str, cs: &Vec<char>, i: usize) -> (r: Option<(String, usize)>)
    requires
        cs@ == input@,
        i <= cs.len(),
    ensures
        match r {
            Some((t, k)) => spec_quoted(cs@, i as int) == Some((t@, k as int)) && i < k <= cs.len(),
            None => spec_quoted(cs@, i as int) is None,
        },
{
    if i < cs.len() && cs[i] == '"' {
        let j = scan_to(cs, i + 1, '"');
        if j < cs.len() {
            Some((String::from_str(input.substring_char(i + 1, j)), j + 1))
        } else {
            None
        }
    } else {
        None
    }
}

fn literal_at(input: &str, cs: &Vec<char>, i: usize) -> (r: Option<(MIRepr, usize)>)
    requires
        cs@ == input@,
        i <= cs.len(),
    ensures
        match r {
            Some((v, k)) => spec_literal(cs@, i as int) == Some((v@, k as int)) && i < k <= cs.len()
                && well_formed(v@),
            None => spec_literal(cs@, i as int) is None,
        },
{
    match quoted(input, cs, i) {
        Some((t, k)) => Some((MIRepr::Literal(t), k)),
        None => None,
    }
}

fn value(input: &str, cs: &Vec<char>, i: usize, d: u64) -> (r: Option<(MIRepr, usize)>)
    requires
        cs@ == input@,
        i <= cs.len(),
    ensures
        match r {
            Some((v, k)) => spec_value(cs@, i as int, d as nat) == Some((v@, k as int)) && i < k
                <= cs.len() && well_formed(v@),
            None => spec_value(cs@, i as int, d as nat) is None,
        },
    decreases d, cs.len() - i, 1nat,
{
    match tuple_at(input, cs, i, d) {
        Some(r) => Some(r),
        None => match array_at(input, cs, i, d) {
            Some(r) => Some(r),
            None => literal_at(input, cs, i),
        },
    }
}

fn tuple_at(input: &str, cs: &Vec<char>, i: usize, d: u64) -> (r: Option<(MIRepr, usize)>)
    requires
        cs@ == input@,
        i <= cs.len(),
    ensures
        match r {
            Some((v, k)) => spec_tuple(cs@, i as int, d as nat) == Some((v@, k as int)) && i < k
                <= cs.len() && well_formed(v@),
            None => spec_tuple(cs@, i as int, d as nat) is None,
        },
    decreases d, cs.len() - i, 0nat,
{
    if d == 0 || i >= cs.len() {
        return None;
    }
    if cs[i] == '{' {
        match pairs(input, cs, i + 1, d - 1) {
            Some((ps, k)) => {
                if k < cs.len() && cs[k] == '}' {
                    Some((resolve_pairs(ps), k + 1))
                } else {
                    None
                }
            },
            None => None,
        }
    } else {
        match pairs(input, cs, i, d - 1) {
            Some((ps, k)) => Some((resolve_pairs(ps), k)),
            None => None,
        }
    }
}

fn array_at(input: &str, cs: &Vec<char>, i: usize, d: u64) -> (r: Option<(MIRepr, usize)>)
    requires
        cs@ == input@,
        i <= cs.len(),
    ensures
        match r {
            Some((v, k)) => spec_array(cs@, i as int, d as nat) == Some((v@, k as int)) && i < k
                <= cs.len() && well_formed(v@),
            None => spec_array(cs@, i as int, d as nat) is None,
        },
    decreases d, cs.len() - i, 0nat,
{
    if d == 0 || i >= cs.len() || cs[i] != '[' {
        return None;
    }
    let (vs, k) = match values(input, cs, i + 1, d - 1) {
        Some(r) => r,
        None => (Vec::new(), i + 1),
    };
    if k < cs.len() && cs[k] == ']' {
        proof {
            lemma_array_view(vs);
            assert(views(vs@).len() == vs.len());
            assert forall|j: int| 0 <= j < views(vs@).len() implies well_formed(
                #[trigger] views(vs@)[j],
            ) by {
                assert(views(vs@)[j] == vs@[j]@);
            }
            if vs.len() == 0 {
                assert(views(vs@) =~= Seq::empty());
            }
        }
        Some((MIRepr::Array(vs), k + 1))
    } else {
        None
    }
}

fn values(input: &str, cs: &Vec<char>, i: usize, d: u64) -> (r: Option<(Vec<MIRepr>, usize)>)
    requires
        cs@ == input@,
        i <= cs.len(),
    ensures
        match r {
            Some((vs, k)) => spec_values(cs@, i as int, d as nat) == Some((views(vs@), k as int))
                && i < k <= cs.len() && forall|j: int|
                0 <= j < vs.len() ==> well_formed(#[trigger] vs@[j]@),
            None => spec_values(cs@, i as int, d as nat) is None,
        },
    decreases d, cs.len() - i, 2nat,
{
    match value(input, cs, i, d) {
        None => None,
        Some((v, k)) => {
            if k < cs.len() && cs[k] == ',' {
                match values(input, cs, k + 1, d) {
                    Some((vs, e)) => {
                        let ghost tail = vs@;
                        let mut vs = vs;
                        vs.insert(0, v);
                        assert(views(vs@) =~= seq![v@] + views(tail));
                        assert forall|j: int| 0 <= j < vs.len() implies well_formed(
                            #[trigger] vs@[j]@,
                        ) by {
                            if j > 0 {
                                assert(vs@[j] == tail[j - 1]);
                            }
                        }
                        Some((vs, e))
                    },
                    None => {
                        let mut vs = Vec::new();
                        vs.push(v);
                        assert(views(vs@) =~= seq![v@]);
                        Some((vs, k))
                    },
                }
            } else {
                let mut vs = Vec::new();
                vs.push(v);
                assert(views(vs@) =~= seq![v@]);
                Some((vs, k))
            }
        },
    }
}

fn pair(input: &str, cs: &Vec<char>, i: usize, d: u64) -> (r: Option<((String, MIRepr), usize)>)
    requires
        cs@ == input@,
        i <= cs.len(),
    ensures
        match r {
            Some((p, k)) => spec_pair(cs@, i as int, d as nat) == Some(((p.0@, p.1@), k as int)) && i
                < k <= cs.len() && well_formed(p.1@),
            None => spec_pair(cs@, i as int, d as nat) is None,
        },
    decreases d, cs.len() - i, 0nat,
{
    match name_at(input, cs, i) {
        None => None,
        Some((n, j)) => match value(input, cs, j, d) {
            Some((v, k)) => Some(((n, v), k)),
            None => None,
        },
    }
}

fn pairs(input: &str, cs: &Vec<char>, i: usize, d: u64) -> (r: Option<(Vec<(String, MIRepr)>, usize)>)
    requires
        cs@ == input@,
        i <= cs.len(),
    ensures
        match r {
            Some((ps, k)) => spec_pairs(cs@, i as int, d as nat) == Some((entry_views(ps@), k as int))
                && i < k <= cs.len() && forall|j: int|
                0 <= j < ps.len() ==> well_formed(#[trigger] ps@[j].1@),
            None => spec_pairs(cs@, i as int, d as nat) is None,
        },
    decreases d, cs.len() - i, 1nat,
{
    match pair(input, cs, i, d) {
        None => None,
        Some((p, k)) => {
            let ghost pv = (p.0@, p.1@);
            if k < cs.len() && cs[k] == ',' {
                match pairs(input, cs, k + 1, d) {
                    Some((ps, e)) => {
                        let ghost tail = ps@;
                        let mut ps = ps;
                        ps.insert(0, p);
                        assert(entry_views(ps@) =~= seq![pv] + entry_views(tail));
                        assert forall|j: int| 0 <= j < ps.len() implies well_formed(
                            #[trigger] ps@[j].1@,
                        ) by {
                            if j > 0 {
                                assert(ps@[j] == tail[j - 1]);
                            }
                        }
                        Some((ps, e))
                    },
                    None => {
                        let mut ps = Vec::new();
                        ps.push(p);
                        assert(entry_views(ps@) =~= seq![pv]);
                        Some((ps, k))
                    },
                }
            } else {
                let mut ps = Vec::new();
                ps.push(p);
                assert(entry_views(ps@) =~= seq![pv]);
                Some((ps, k))
            }
        },
    }
}

/// Builds the value that a sequence of pairs stands for: a map when the names
/// are distinct, else a list of one-entry maps.
fn resolve_pairs(ps: Vec<(String, MIRepr)>) -> (r: MIRepr)
    requires
        forall|j: int| 0 <= j < ps.len() ==> well_formed(#[trigger] ps@[j].1@),
    ensures
        r@ == resolve(entry_views(ps@)),
        well_formed(r@),
{
    let n = ps.len();
    let ghost ev = entry_views(ps@);
    let mut repeated = false;
    let mut b: usize = 0;
    while b < n && !repeated
        invariant
            b <= n,
            n == ps.len(),
            ev == entry_views(ps@),
            repeated ==> has_repeated_name(ev),
            !repeated ==> forall|x: int, y: int| 0 <= x < y < b ==> ev[x].0 != ev[y].0,
        decreases n - b + (if repeated { 0int } else { 1int }),
    {
        let mut a: usize = 0;
        while a < b && !repeated
            invariant
                a <= b,
                b < n,
                n == ps.len(),
                ev == entry_views(ps@),
                repeated ==> has_repeated_name(ev),
                !repeated ==> forall|x: int| 0 <= x < a ==> ev[x].0 != ev[b as int].0,
                !repeated ==> forall|x: int, y: int| 0 <= x < y < b ==> ev[x].0 != ev[y].0,
            decreases b - a + (if repeated { 0int } else { 1int }),
        {
            if ps[a].0 == ps[b].0 {
                assert(ev[a as int].0 == ev[b as int].0);
                repeated = true;
            } else {
                a += 1;
            }
        }
        if !repeated {
            b += 1;
        }
    }
    if !repeated {
        proof {
            lemma_tuple_view(ps);
        }
        return MIRepr::Tuple(ps);
    }
    let mut rest = ps;
    let mut out: Vec<MIRepr> = Vec::new();
    while rest.len() > 0
        invariant
            out.len() + rest.len() == n,
            n == ev.len(),
            entry_views(rest@) == ev.subrange(out.len() as int, n as int),
            forall|j: int| 0 <= j < rest.len() ==> well_formed(#[trigger] rest@[j].1@),
            forall|j: int| 0 <= j < out.len() ==> #[trigger] out@[j]@ == single_entry(ev[j]),
        decreases rest.len(),
    {
        let ghost before = rest@;
        let p = rest.remove(0);
        assert(entry_views(rest@) =~= entry_views(before).subrange(1, before.len() as int));
        let ghost pv = (p.0@, p.1@);
        assert(pv == entry_views(before)[0]);
        let mut one: Vec<(String, MIRepr)> = Vec::new();
        one.push(p);
        proof {
            lemma_tuple_view(one);
            assert(entry_views(one@) =~= seq![pv]);
        }
        out.push(MIRepr::Tuple(one));
        assert forall|j: int| 0 <= j < rest.len() implies well_formed(#[trigger] rest@[j].1@) by {
            assert(rest@[j] == before[j + 1]);
        }
    }
    proof {
        lemma_array_view(out);
        assert(views(out@) =~= ev.map_values(|p: (Seq<char>, Node)| single_entry(p)));
        assert forall|j: int| 0 <= j < views(out@).len() implies well_formed(
            #[trigger] views(out@)[j],
        ) by {
            let p = ev[j];
            assert(!has_repeated_name(seq![p]));
            assert(p.1 == entry_views(ps@)[j].1);
        }
    }
    MIRepr::Array(out)
}

/// The payload at `i` of `cs`, and where reading stopped.
pub(crate) fn payload(input: &str, cs: &Vec<char>, i: usize) -> (r: Option<(MIRepr, usize)>)
    requires
        cs@ == input@,
        i <= cs.len(),
    ensures
        match r {
            Some((v, k)) => spec_payload(cs@, i as int) == Some((v@, k as int)) && i < k <= cs.len()
                && well_formed(v@),
            None => spec_payload(cs@, i as int) is None,
        },
{
    match tuple_at(input, cs, i, MAX_DEPTH) {
        Some(r) => Some(r),
        None => array_at(input, cs, i, MAX_DEPTH),
    }
}

/// Reads a payload such as `reason="breakpoint-hit",frame={...}` from the
/// start of `input`. Gives the text that was left and the value.
pub fn mi_repr(input: &str) -> (r: Result<(String, MIRepr), ParseFailure>)
    ensures
        match r {
            Ok((rest, v)) => match spec_payload(input@, 0) {
                Some((pv, pk)) => v@ == pv && rest@ == input@.subrange(pk, input@.len() as int)
                    && well_formed(v@),
                None => false,
            },
            Err(e) => spec_payload(input@, 0) is None && e.fragment@ == input@,
        },
{
    let cs = chars_of(input);
    match payload(input, &cs, 0) {
        Some((v, k)) => Ok((rest_from(input, k), v)),
        None => Err(failure(input)),
    }
}

fn copy_repr(x: &MIRepr) -> (r: MIRepr)
    ensures
        r@ == x@,
    decreases x,
{
        match x {
            MIRepr::Literal(s) => MIRepr::Literal(s.clone()),
            MIRepr::Array(v) => {
                let mut c: Vec<MIRepr> = Vec::new();
                let mut i: usize = 0;
                while i < v.len()
                    invariant
                        i <= v.len(),
                        *x == MIRepr::Array(*v),
                        views(c@) == views(v@).subrange(0, i as int),
                    decreases v.len() - i,
                {
                    proof {
                        vstd::std_specs::vec::axiom_vec_index_decreases(*v, i as int);
                        assert(decreases_to!(*x => x->Array_0));
                        assert(decreases_to!(*x => v[i as int]));
                    }
                    let y = copy_repr(&v[i]);
                    let ghost before = c@;
                    c.push(y);
                    assert(views(c@) =~= views(before).push(y@));
                    assert(views(v@).subrange(0, i + 1) =~= views(v@).subrange(0, i as int).push(
                        v@[i as int]@,
                    ));
                    i += 1;
                }
                proof {
                    lemma_array_view(c);
                    lemma_array_view(*v);
                    assert(views(c@) =~= views(v@));
                }
                MIRepr::Array(c)
            },
            MIRepr::Tuple(v) => {
                let mut c: Vec<(String, MIRepr)> = Vec::new();
                let mut i: usize = 0;
                while i < v.len()
                    invariant
                        i <= v.len(),
                        *x == MIRepr::Tuple(*v),
                        entry_views(c@) == entry_views(v@).subrange(0, i as int),
                    decreases v.len() - i,
                {
                    proof {
                        vstd::std_specs::vec::axiom_vec_index_decreases(*v, i as int);
                        assert(decreases_to!(*x => x->Tuple_0));
                        assert(decreases_to!(v[i as int] => v[i as int].1));
                        assert(decreases_to!(*x => v[i as int].1));
                    }
                    let y = copy_repr(&v[i].1);
                    let p = (v[i].0.clone(), y);
                    let ghost before = c@;
                    c.push(p);
                    assert(entry_views(c@) =~= entry_views(before).push((p.0@, p.1@)));
                    assert(entry_views(v@).subrange(0, i + 1) =~= entry_views(v@).subrange(
                        0,
                        i as int,
                    ).push((v@[i as int].0@, v@[i as int].1@)));
                    i += 1;
                }
                proof {
                    lemma_tuple_view(c);
                    lemma_tuple_view(*v);
                    assert(entry_views(c@) =~= entry_views(v@));
                }
                MIRepr::Tuple(c)
            },
        }
}

impl Clone for MIRepr {
    fn clone(&self) -> (r: Self)
        ensures
            r@ == self@,
    {
        copy_repr(self)
    }
}

/// Why a value could not be read as the scalar that was asked for.
#[derive(Debug, Clone, Copy, PartialEq, Eq, Structural)]
pub enum QueryError {
    /// The value is a map or a list, not a literal.
    NotScalar,
    /// The literal is not a decimal number that fits the asked type.
    NotNumber,
    /// The value does not have the shape that the query expects.
    BadShape,
}

pub open spec fn is_digit(c: char) -> bool {
    '0' <= c && c <= '9'
}

/// The number that a string of decimal digits denotes.
pub open spec fn decimal_value(s: Seq<char>) -> nat
    decreases s.len(),
{
    if s.len() == 0 {
        0
    } else {
        decimal_value(s.drop_last()) * 10 + (s.last() as nat - '0' as nat) as nat
    }
}

/// A non-empty run of decimal digits.
pub open spec fn is_decimal(s: Seq<char>) -> bool {
    s.len() > 0 && forall|i: int| 0 <= i < s.len() ==> is_digit(#[trigger] s[i])
}

/// What reading a node as a `u32` gives.
pub open spec fn spec_as_u32(n: Node) -> Result<u32, QueryError> {
    match n {
        Node::Text(s) => if is_decimal(s) && decimal_value(s) <= u32::MAX {
            Ok(decimal_value(s) as u32)
        } else {
            Err(QueryError::NotNumber)
        },
        _ => Err(QueryError::NotScalar),
    }
}

/// What reading a node as text gives.
pub open spec fn spec_as_text(n: Node) -> Result<Seq<char>, QueryError> {
    match n {
        Node::Text(s) => Ok(s),
        _ => Err(QueryError::NotScalar),
    }
}

pub proof fn lemma_decimal_grows(s: Seq<char>, i: int, j: int)
    requires
        0 <= i <= j <= s.len(),
        forall|k: int| 0 <= k < s.len() ==> is_digit(#[trigger] s[k]),
    ensures
        decimal_value(s.subrange(0, i)) <= decimal_value(s.subrange(0, j)),
    decreases j - i,
{
    if i < j {
        lemma_decimal_grows(s, i, j - 1);
        assert(s.subrange(0, j).drop_last() =~= s.subrange(0, j - 1));
    }
}

impl MIRepr {
    /// The literal read as a decimal `u32`.
    pub fn to_u32(&self) -> (r: Result<u32, QueryError>)
        ensures
            r == spec_as_u32(self@),
    {
        match self {
            MIRepr::Literal(s) => {
                let text = s.as_str();
                let n = text.unicode_len();
                if n == 0 {
                    return Err(QueryError::NotNumber);
                }
                let mut acc: u64 = 0;
                let mut i: usize = 0;
                while i < n
                    invariant
                        n == s@.len(),
                        text@ == s@,
                        self@ == Node::Text(s@),
                        i <= n,
                        acc == decimal_value(s@.subrange(0, i as int)),
                        acc <= u32::MAX,
                        forall|k: int| 0 <= k < i ==> is_digit(#[trigger] s@[k]),
                    decreases n - i,
                {
                    let c = text.get_char(i);
                    if !('0' <= c && c <= '9') {
                        assert(!is_digit(s@[i as int]));
                        return Err(QueryError::NotNumber);
                    }
                    let ghost prefix = s@.subrange(0, i + 1);
                    assert(prefix.drop_last() =~= s@.subrange(0, i as int));
                    assert(prefix.last() == c);
                    acc = acc * 10 + (c as u64 - '0' as u64);
                    i += 1;
                    if acc > u32::MAX as u64 {
                        proof {
                            if is_decimal(s@) {
                                lemma_decimal_grows(s@, i as int, n as int);
                                assert(s@.subrange(0, n as int) =~= s@);
                            }
                        }
                        return Err(QueryError::NotNumber);
                    }
                }
                assert(s@.subrange(0, n as int) =~= s@);
                Ok(acc as u32)
            },
            _ => Err(QueryError::NotScalar),
        }
    }

    /// The literal's text.
    pub fn to_string(&self) -> (r: Result<String, QueryError>)
        ensures
            match r {
                Ok(t) => spec_as_text(self@) == Ok::<Seq<char>, QueryError>(t@),
                Err(e) => spec_as_text(self@) == Err::<Seq<char>, QueryError>(e),
            },
    {
        match self {
            MIRepr::Literal(s) => Ok(s.clone()),
            _ => Err(QueryError::NotScalar),
        }
    }
}

/// A bare `name=value,...` payload whose names repeat reads as a list of
/// one-entry maps, one per pair and in order, so no pair is lost; with
/// distinct names it reads as one map of all the pairs.
pub proof fn lemma_repeated_names(s: Seq<char>)
    requires
        s.len() > 0,
        s[0] != '{',
        spec_pairs(s, 0, (MAX_DEPTH - 1) as nat) is Some,
    ensures
        ({
            let (ps, k) = spec_pairs(s, 0, (MAX_DEPTH - 1) as nat)->0;
            &&& has_repeated_name(ps) ==> spec_payload(s, 0) == Some(
                (Node::List(ps.map_values(|p: (Seq<char>, Node)| single_entry(p))), k),
            )
            &&& !has_repeated_name(ps) ==> spec_payload(s, 0) == Some((Node::Fields(ps), k))
        }),
{
}

/// The list that repeated names give holds exactly the pairs, one per entry.
pub proof fn lemma_resolve_keeps_pairs(ps: Seq<(Seq<char>, Node)>)
    requires
        has_repeated_name(ps),
    ensures
        resolve(ps) is List,
        resolve(ps)->List_0.len() == ps.len(),
        forall|i: int|
            0 <= i < ps.len() ==> #[trigger] resolve(ps)->List_0[i] == Node::Fields(seq![ps[i]]),
{
}

/// The text of `input` from position `k` on.
pub(crate) fn rest_from(input: &str, k: usize) -> (r: String)
    requires
        k <= input@.len(),
    ensures
        r@ == input@.subrange(k as int, input@.len() as int),
{
    String::from_str(input.substring_char(k, input.unicode_len()))
}

pub(crate) fn failure(input: &str) -> (r: ParseFailure)
    ensures
        r.fragment@ == input@,
{
    ParseFailure { fragment: String::from_str(input) }
}

/// Reads `name=` from the start of `input`; gives the rest and the name.
pub fn name(input: &str) -> (r: Result<(String, String), ParseFailure>)
    ensures
        match r {
            Ok((rest, n)) => match spec_name(input@, 0) {
                Some((sn, k)) => n@ == sn && rest@ == input@.subrange(k, input@.len() as int),
                None => false,
            },
            Err(e) => spec_name(input@, 0) is None && e.fragment@ == input@,
        },
{
    let cs = chars_of(input);
    match name_at(input, &cs, 0) {
        Some((n, k)) => Ok((rest_from(input, k), n)),
        None => Err(failure(input)),
    }
}

/// Reads a quoted literal from the start of `input`; gives the rest and the value.
pub fn literal(input: &str) -> (r: Result<(String, MIRepr), ParseFailure>)
    ensures
        match r {
            Ok((rest, v)) => match spec_literal(input@, 0) {
                Some((sv, k)) => v@ == sv && rest@ == input@.subrange(k, input@.len() as int),
                None => false,
            },
            Err(e) => spec_literal(input@, 0) is None && e.fragment@ == input@,
        },
{
    let cs = chars_of(input);
    match literal_at(input, &cs, 0) {
        Some((v, k)) => Ok((rest_from(input, k), v)),
        None => Err(failure(input)),
    }
}

/// Reads `name=value,...`, bare or in braces, from the start of `input`;
/// gives the rest and the value.
pub fn map(input: &str) -> (r: Result<(String, MIRepr), ParseFailure>)
    ensures
        match r {
            Ok((rest, v)) => match spec_tuple(input@, 0, MAX_DEPTH as nat) {
                Some((sv, k)) => v@ == sv && rest@ == input@.subrange(k, input@.len() as int)
                    && well_formed(v@),
                None => false,
            },
            Err(e) => spec_tuple(input@, 0, MAX_DEPTH as nat) is None && e.fragment@ == input@,
        },
{
    let cs = chars_of(input);
    match tuple_at(input, &cs, 0, MAX_DEPTH) {
        Some((v, k)) => Ok((rest_from(input, k), v)),
        None => Err(failure(input)),
    }
}

/// Reads `[value,...]` from the start of `input`; gives the rest and the value.
pub fn array(input: &str) -> (r: Result<(String, MIRepr), ParseFailure>)
    ensures
        match r {
            Ok((rest, v)) => match spec_array(input@, 0, MAX_DEPTH as nat) {
                Some((sv, k)) => v@ == sv && rest@ == input@.subrange(k, input@.len() as int)
                    && well_formed(v@),
                None => false,
            },
            Err(e) => spec_array(input@, 0, MAX_DEPTH as nat) is None && e.fragment@ == input@,
        },
{
    let cs = chars_of(input);
    match array_at(input, &cs, 0, MAX_DEPTH) {
        Some((v, k)) => Ok((rest_from(input, k), v)),
        None => Err(failure(input)),
    }
}

} // verus!
