use vstd::prelude::*;
use vstd::string::*;

use crate::mi::{opt_node, Output, Record};
use crate::mi_parse::{
    entry_views, lemma_tuple_view, spec_as_text, spec_as_u32, MIRepr, Node, QueryError,
};
use crate::mi_types::{Frame, FrameModel};

verus! {

/// The value of the first pair named `name`.
pub open spec fn field(ps: Seq<(Seq<char>, Node)>, name: Seq<char>) -> Option<Node>
    decreases ps.len(),
{
    if ps.len() == 0 {
        None
    } else if ps[0].0 == name {
        Some(ps[0].1)
    } else {
        field(ps.drop_first(), name)
    }
}

/// Follows `path` through nested maps, one name per level.
pub open spec fn project(n: Node, path: Seq<Seq<char>>) -> Option<Node>
    decreases path.len(),
{
    if path.len() == 0 {
        Some(n)
    } else {
        match n {
            Node::Fields(ps) => match field(ps, path[0]) {
                Some(c) => project(c, path.drop_first()),
                None => None,
            },
            _ => None,
        }
    }
}

pub open spec fn path_of(q: Seq<&str>) -> Seq<Seq<char>> {
    q.map_values(|x: &str| x@)
}

/// The value under `key` in a list of pairs.
fn lookup<'a>(v: &'a Vec<(String, MIRepr)>, key: &str) -> (r: Option<&'a MIRepr>)
    ensures
        match r {
            Some(x) => field(entry_views(v@), key@) == Some(x@),
            None => field(entry_views(v@), key@) is None,
        },
{
    let k = String::from_str(key);
    let ghost ev = entry_views(v@);
    let mut j: usize = 0;
    assert(ev.subrange(0, ev.len() as int) =~= ev);
    while j < v.len()
        invariant
            j <= v.len(),
            ev == entry_views(v@),
            k@ == key@,
            field(ev, key@) == field(ev.subrange(j as int, ev.len() as int), key@),
        decreases v.len() - j,
    {
        let ghost rest = ev.subrange(j as int, ev.len() as int);
        assert(rest.drop_first() =~= ev.subrange(j + 1, ev.len() as int));
        if v[j].0 == k {
            return Some(&v[j].1);
        }
        j += 1;
    }
    assert(ev.subrange(j as int, ev.len() as int) =~= Seq::<(Seq<char>, Node)>::empty());
    None
}

/// Follows `query` through nested maps and gives a copy of what it reaches:
/// `None` as soon as a name is missing or the value there is not a map.
pub fn get(data: &MIRepr, query: &[&str]) -> (r: Option<MIRepr>)
    ensures
        opt_node(r) == project(data@, path_of(query@)),
{
    let ghost path = path_of(query@);
    let mut cur = data;
    let mut i: usize = 0;
    assert(path.subrange(0, path.len() as int) =~= path);
    while i < query.len()
        invariant
            i <= query.len(),
            path == path_of(query@),
            project(data@, path) == project(cur@, path.subrange(i as int, path.len() as int)),
        decreases query.len() - i,
    {
        let ghost rest = path.subrange(i as int, path.len() as int);
        assert(rest.drop_first() =~= path.subrange(i + 1, path.len() as int));
        match cur {
            MIRepr::Tuple(v) => {
                proof {
                    lemma_tuple_view(*v);
                }
                match lookup(v, query[i]) {
                    Some(x) => cur = x,
                    None => return None,
                }
            },
            _ => return None,
        }
        i += 1;
    }
    assert(path.subrange(i as int, path.len() as int) =~= Seq::<Seq<char>>::empty());
    Some(cur.clone())
}

/// The payload that a record carries, if any.
pub open spec fn payload_of(o: Record) -> Option<Node> {
    match o {
        Record::Exec(_, v) => Some(v),
        Record::Notify(_, v) => Some(v),
        Record::Result(_, Some(v)) => Some(v),
        _ => None,
    }
}

fn mi_repr(input: &Output) -> (r: Option<MIRepr>)
    ensures
        opt_node(r) == payload_of(input@),
{
    match input {
        Output::ExecAsync(_, r) => Some(r.clone()),
        Output::NotifyAsync(_, r) => Some(r.clone()),
        Output::ResultRecord(_, Some(r)) => Some(r.clone()),
        _ => None,
    }
}

fn path2(a: &'static str, b: &'static str) -> (r: Vec<&'static str>)
    ensures
        path_of(r@) == seq![a@, b@],
{
    let mut r = Vec::new();
    r.push(a);
    r.push(b);
    assert(path_of(r@) =~= seq![a@, b@]);
    r
}

fn path1(a: &'static str) -> (r: Vec<&'static str>)
    ensures
        path_of(r@) == seq![a@],
{
    let mut r = Vec::new();
    r.push(a);
    assert(path_of(r@) =~= seq![a@]);
    r
}

/// A projection that may be absent, read as a number: absent stays absent,
/// and a value of the wrong kind is an error.
pub open spec fn read_u32(n: Option<Node>) -> Result<Option<u32>, QueryError> {
    match n {
        None => Ok(None),
        Some(v) => match spec_as_u32(v) {
            Ok(x) => Ok(Some(x)),
            Err(e) => Err(e),
        },
    }
}

/// A projection that may be absent, read as text.
pub open spec fn read_text(n: Option<Node>) -> Result<Option<Seq<char>>, QueryError> {
    match n {
        None => Ok(None),
        Some(v) => match spec_as_text(v) {
            Ok(x) => Ok(Some(x)),
            Err(e) => Err(e),
        },
    }
}

/// The payload of a record, followed along `path`.
pub open spec fn record_at(o: Record, path: Seq<Seq<char>>) -> Option<Node> {
    match payload_of(o) {
        Some(p) => project(p, path),
        None => None,
    }
}

pub open spec fn spec_current_line(o: Record) -> Result<Option<u32>, QueryError> {
    read_u32(record_at(o, seq!["frame"@, "line"@]))
}

pub open spec fn spec_current_file(o: Record) -> Result<Option<Seq<char>>, QueryError> {
    read_text(record_at(o, seq!["frame"@, "fullname"@]))
}

fn at_path(input: &Output, path: &Vec<&'static str>) -> (r: Option<MIRepr>)
    ensures
        opt_node(r) == record_at(input@, path_of(path@)),
{
    match mi_repr(input) {
        Some(p) => get(&p, path.as_slice()),
        None => None,
    }
}

/// The line of the current frame that a record reports.
pub fn current_line(input: &Output) -> (r: Result<Option<u32>, QueryError>)
    ensures
        r == spec_current_line(input@),
{
    let path = path2("frame", "line");
    match at_path(input, &path) {
        None => Ok(None),
        Some(v) => match v.to_u32() {
            Ok(x) => Ok(Some(x)),
            Err(e) => Err(e),
        },
    }
}

/// The full path of the source file of the current frame that a record reports.
pub fn current_file(input: &Output) -> (r: Result<Option<String>, QueryError>)
    ensures
        match r {
            Ok(Some(t)) => spec_current_file(input@) == Ok::<Option<Seq<char>>, QueryError>(Some(t@)),
            Ok(None) => spec_current_file(input@) == Ok::<Option<Seq<char>>, QueryError>(None),
            Err(e) => spec_current_file(input@) == Err::<Option<Seq<char>>, QueryError>(e),
        },
{
    let path = path2("frame", "fullname");
    match at_path(input, &path) {
        None => Ok(None),
        Some(v) => match v.to_string() {
            Ok(x) => Ok(Some(x)),
            Err(e) => Err(e),
        },
    }
}

/// Whether a record says that the program exited normally.
pub open spec fn spec_has_exited(o: Record) -> bool {
    match o {
        Record::Exec(_, v) => project(v, seq!["reason"@]) == Some(Node::Text("exited-normally"@)),
        _ => false,
    }
}

pub fn has_exited(input: &Output) -> (r: bool)
    ensures
        r == spec_has_exited(input@),
{
    match input {
        Output::ExecAsync(_, repr) => {
            let path = path1("reason");
            match get(repr, path.as_slice()) {
                Some(MIRepr::Literal(s)) => s == String::from_str("exited-normally"),
                _ => false,
            }
        },
        _ => false,
    }
}

/// The frame that a `{func=...,level=...}` map describes.
pub open spec fn spec_frame_fields(f: Node) -> Result<FrameModel, QueryError> {
    match (project(f, seq!["func"@]), project(f, seq!["level"@])) {
        (Some(func), Some(level)) => match spec_as_text(func) {
            Err(e) => Err(e),
            Ok(name) => match spec_as_u32(level) {
                Err(e) => Err(e),
                Ok(l) => Ok(FrameModel { func: name, level: l, args: None }),
            },
        },
        _ => Err(QueryError::BadShape),
    }
}

/// The frame under the `frame` name of a value; absent when there is none.
pub open spec fn spec_frame_of(r: Node) -> Result<Option<FrameModel>, QueryError> {
    match project(r, seq!["frame"@]) {
        None => Ok(None),
        Some(f) => match spec_frame_fields(f) {
            Ok(m) => Ok(Some(m)),
            Err(e) => Err(e),
        },
    }
}

/// A stack entry must hold a frame.
pub open spec fn spec_frame_entry(e: Node) -> Result<FrameModel, QueryError> {
    match spec_frame_of(e) {
        Ok(Some(m)) => Ok(m),
        Ok(None) => Err(QueryError::BadShape),
        Err(x) => Err(x),
    }
}

/// The frames of a list of entries, in order; the first error if one fails.
pub open spec fn spec_collect_frames(es: Seq<Node>) -> Result<Seq<FrameModel>, QueryError>
    decreases es.len(),
{
    if es.len() == 0 {
        Ok(Seq::empty())
    } else {
        match spec_collect_frames(es.drop_last()) {
            Err(e) => Err(e),
            Ok(fs) => match spec_frame_entry(es.last()) {
                Ok(f) => Ok(fs.push(f)),
                Err(e) => Err(e),
            },
        }
    }
}

/// Entries of a stack list: the pairs `frame={...},frame={...}` inside the
/// brackets read as one list of one-entry maps, which the brackets wrap.
pub open spec fn frame_entries(items: Seq<Node>) -> Seq<Node> {
    if items.len() == 1 && items[0] is List {
        items[0]->List_0
    } else {
        items
    }
}

/// The frames listed under `stack`.
pub open spec fn spec_frames_from(r: Node) -> Result<Option<Seq<FrameModel>>, QueryError> {
    match project(r, seq!["stack"@]) {
        None => Ok(None),
        Some(Node::List(items)) => match spec_collect_frames(frame_entries(items)) {
            Ok(fs) => Ok(Some(fs)),
            Err(e) => Err(e),
        },
        Some(_) => Err(QueryError::BadShape),
    }
}

pub open spec fn frame_views(v: Seq<Frame>) -> Seq<FrameModel> {
    v.map_values(|f: Frame| f@)
}

proof fn lemma_collect_error(es: Seq<Node>, i: int, e: QueryError)
    requires
        0 < i <= es.len(),
        spec_collect_frames(es.subrange(0, i)) == Err::<Seq<FrameModel>, QueryError>(e),
    ensures
        spec_collect_frames(es) == Err::<Seq<FrameModel>, QueryError>(e),
    decreases es.len() - i,
{
    if i < es.len() {
        let p = es.subrange(0, i + 1);
        assert(p.drop_last() =~= es.subrange(0, i));
        lemma_collect_error(es, i + 1, e);
    } else {
        assert(es.subrange(0, i) =~= es);
    }
}

fn frame_fields(f: &MIRepr) -> (r: Result<Frame, QueryError>)
    ensures
        match r {
            Ok(fr) => spec_frame_fields(f@) == Ok::<FrameModel, QueryError>(fr@),
            Err(e) => spec_frame_fields(f@) == Err::<FrameModel, QueryError>(e),
        },
{
    let func = get(f, path1("func").as_slice());
    let level = get(f, path1("level").as_slice());
    match (func, level) {
        (Some(func), Some(level)) => match func.to_string() {
            Err(e) => Err(e),
            Ok(name) => match level.to_u32() {
                Err(e) => Err(e),
                Ok(l) => Ok(Frame { func: name, level: l, args: None }),
            },
        },
        _ => Err(QueryError::BadShape),
    }
}

fn frame_from_repr(repr: &MIRepr) -> (r: Result<Option<Frame>, QueryError>)
    ensures
        match r {
            Ok(Some(fr)) => spec_frame_of(repr@) == Ok::<Option<FrameModel>, QueryError>(Some(fr@)),
            Ok(None) => spec_frame_of(repr@) == Ok::<Option<FrameModel>, QueryError>(None),
            Err(e) => spec_frame_of(repr@) == Err::<Option<FrameModel>, QueryError>(e),
        },
{
    match get(repr, path1("frame").as_slice()) {
        None => Ok(None),
        Some(f) => match frame_fields(&f) {
            Ok(fr) => Ok(Some(fr)),
            Err(e) => Err(e),
        },
    }
}

/// The frames of a `-stack-list-frames` reply, innermost first.
pub fn frames_from_repr(repr: &MIRepr) -> (r: Result<Option<Vec<Frame>>, QueryError>)
    ensures
        match r {
            Ok(Some(fs)) => spec_frames_from(repr@) == Ok::<Option<Seq<FrameModel>>, QueryError>(
                Some(frame_views(fs@)),
            ),
            Ok(None) => spec_frames_from(repr@) == Ok::<Option<Seq<FrameModel>>, QueryError>(None),
            Err(e) => spec_frames_from(repr@) == Err::<Option<Seq<FrameModel>>, QueryError>(e),
        },
{
    let stack = match get(repr, path1("stack").as_slice()) {
        None => return Ok(None),
        Some(s) => s,
    };
    let items = match stack {
        MIRepr::Array(items) => items,
        _ => return Err(QueryError::BadShape),
    };
    proof {
        crate::mi_parse::lemma_array_view(items);
    }
    let ghost item_views = crate::mi_parse::views(items@);
    let entries = if items.len() == 1 {
        match &items[0] {
            MIRepr::Array(inner) => {
                proof {
                    crate::mi_parse::lemma_array_view(*inner);
                }
                inner.clone()
            },
            _ => items,
        }
    } else {
        items
    };
    let ghost es = frame_entries(item_views);
    assert(crate::mi_parse::views(entries@) == es) by {
        if items.len() == 1 && item_views[0] is List {
            assert(item_views[0] == items@[0]@);
        }
    }
    let mut out: Vec<Frame> = Vec::new();
    let mut i: usize = 0;
    assert(es.subrange(0, 0) =~= Seq::<Node>::empty());
    assert(frame_views(out@) =~= Seq::<FrameModel>::empty());
    while i < entries.len()
        invariant
            i <= entries.len(),
            crate::mi_parse::views(entries@) == es,
            es == frame_entries(item_views),
            project(repr@, seq!["stack"@]) == Some(Node::List(item_views)),
            spec_collect_frames(es.subrange(0, i as int)) == Ok::<Seq<FrameModel>, QueryError>(
                frame_views(out@),
            ),
        decreases entries.len() - i,
    {
        let ghost p = es.subrange(0, i + 1);
        assert(p.drop_last() =~= es.subrange(0, i as int));
        assert(p.last() == entries@[i as int]@);
        match frame_from_repr(&entries[i]) {
            Ok(Some(f)) => {
                let ghost before = out@;
                out.push(f);
                assert(frame_views(out@) =~= frame_views(before).push(f@));
            },
            Ok(None) => {
                proof {
                    lemma_collect_error(es, i + 1, QueryError::BadShape);
                }
                return Err(QueryError::BadShape);
            },
            Err(e) => {
                proof {
                    lemma_collect_error(es, i + 1, e);
                }
                return Err(e);
            },
        }
        i += 1;
    }
    assert(es.subrange(0, i as int) =~= es);
    Ok(Some(out))
}

/// The frames that a record lists.
pub fn frames(input: &Output) -> (r: Result<Option<Vec<Frame>>, QueryError>)
    ensures
        match r {
            Ok(Some(fs)) => payload_of(input@) is Some && spec_frames_from(payload_of(input@)->0)
                == Ok::<Option<Seq<FrameModel>>, QueryError>(Some(frame_views(fs@))),
            Ok(None) => payload_of(input@) is None || spec_frames_from(payload_of(input@)->0)
                == Ok::<Option<Seq<FrameModel>>, QueryError>(None),
            Err(e) => payload_of(input@) is Some && spec_frames_from(payload_of(input@)->0)
                == Err::<Option<Seq<FrameModel>>, QueryError>(e),
        },
{
    match mi_repr(input) {
        Some(p) => frames_from_repr(&p),
        None => Ok(None),
    }
}

/// The frame that a record reports, such as the one where the program stopped.
pub fn frame(input: &Output) -> (r: Result<Option<Frame>, QueryError>)
    ensures
        match r {
            Ok(Some(fr)) => payload_of(input@) is Some && spec_frame_of(payload_of(input@)->0)
                == Ok::<Option<FrameModel>, QueryError>(Some(fr@)),
            Ok(None) => payload_of(input@) is None || spec_frame_of(payload_of(input@)->0) == Ok::<
                Option<FrameModel>,
                QueryError,
            >(None),
            Err(e) => payload_of(input@) is Some && spec_frame_of(payload_of(input@)->0) == Err::<
                Option<FrameModel>,
                QueryError,
            >(e),
        },
{
    match mi_repr(input) {
        Some(p) => frame_from_repr(&p),
        None => Ok(None),
    }
}

/// A text under `name`, or the empty text when there is none.
pub open spec fn text_or_empty(n: Node, name: Seq<char>) -> Option<Seq<char>> {
    match project(n, seq![name]) {
        None => Some(Seq::empty()),
        Some(Node::Text(t)) => Some(t),
        Some(_) => None,
    }
}

/// One argument `{name="a",type="int",value="1"}` as (name, type, value);
/// a missing type or value reads as empty text.
pub open spec fn spec_arg(n: Node) -> Option<(Seq<char>, Seq<char>, Seq<char>)> {
    match (project(n, seq!["name"@]), text_or_empty(n, "type"@), text_or_empty(n, "value"@)) {
        (Some(Node::Text(a)), Some(t), Some(v)) => Some((a, t, v)),
        _ => None,
    }
}

pub open spec fn spec_collect_args(args: Seq<Node>) -> Option<Seq<(Seq<char>, Seq<char>, Seq<char>)>>
    decreases args.len(),
{
    if args.len() == 0 {
        Some(Seq::empty())
    } else {
        match (spec_collect_args(args.drop_last()), spec_arg(args.last())) {
            (Some(xs), Some(x)) => Some(xs.push(x)),
            _ => None,
        }
    }
}

/// The arguments of the innermost frame of a `-stack-list-arguments 2`
/// reply; `None` when the reply has no such frame or another shape.
pub open spec fn spec_frame_args(r: Node) -> Option<Seq<(Seq<char>, Seq<char>, Seq<char>)>> {
    match project(r, seq!["stack-args"@]) {
        Some(Node::List(items)) => {
            let es = frame_entries(items);
            if es.len() > 0 {
                match project(es[0], seq!["frame"@, "args"@]) {
                    Some(Node::List(args)) => spec_collect_args(args),
                    _ => None,
                }
            } else {
                None
            }
        },
        _ => None,
    }
}

pub open spec fn triple_views(v: Seq<(String, String, String)>) -> Seq<
    (Seq<char>, Seq<char>, Seq<char>),
> {
    v.map_values(|t: (String, String, String)| (t.0@, t.1@, t.2@))
}

proof fn lemma_collect_args_none(args: Seq<Node>, i: int)
    requires
        0 < i <= args.len(),
        spec_collect_args(args.subrange(0, i)) is None,
    ensures
        spec_collect_args(args) is None,
    decreases args.len() - i,
{
    if i < args.len() {
        let p = args.subrange(0, i + 1);
        assert(p.drop_last() =~= args.subrange(0, i));
        lemma_collect_args_none(args, i + 1);
    } else {
        assert(args.subrange(0, i) =~= args);
    }
}

fn text_or_empty_at(n: &MIRepr, name: &'static str) -> (r: Option<String>)
    ensures
        match r {
            Some(t) => text_or_empty(n@, name@) == Some(t@),
            None => text_or_empty(n@, name@) is None,
        },
{
    match get(n, path1(name).as_slice()) {
        None => Some(String::new()),
        Some(MIRepr::Literal(t)) => Some(t),
        Some(_) => None,
    }
}

fn arg(n: &MIRepr) -> (r: Option<(String, String, String)>)
    ensures
        match r {
            Some(t) => spec_arg(n@) == Some((t.0@, t.1@, t.2@)),
            None => spec_arg(n@) is None,
        },
{
    let name = get(n, path1("name").as_slice());
    let ty = text_or_empty_at(n, "type");
    let value = text_or_empty_at(n, "value");
    match (name, ty, value) {
        (Some(MIRepr::Literal(a)), Some(t), Some(v)) => Some((a, t, v)),
        _ => None,
    }
}

/// Querying the output of `-stack-list-arguments 2`: the (name, type, value)
/// of each argument of the innermost frame.
pub fn frame_args_from_repr(repr: &MIRepr) -> (r: Option<Vec<(String, String, String)>>)
    ensures
        match r {
            Some(v) => spec_frame_args(repr@) == Some(triple_views(v@)),
            None => spec_frame_args(repr@) is None,
        },
{
    let items = match get(repr, path1("stack-args").as_slice()) {
        Some(MIRepr::Array(items)) => items,
        _ => return None,
    };
    proof {
        crate::mi_parse::lemma_array_view(items);
    }
    let ghost item_views = crate::mi_parse::views(items@);
    if items.len() == 0 {
        return None;
    }
    let first = if items.len() == 1 {
        match &items[0] {
            MIRepr::Array(inner) => {
                proof {
                    crate::mi_parse::lemma_array_view(*inner);
                    assert(item_views[0] == items@[0]@);
                }
                if inner.len() == 0 {
                    return None;
                }
                assert(frame_entries(item_views)[0] == inner@[0]@);
                inner[0].clone()
            },
            _ => items[0].clone(),
        }
    } else {
        items[0].clone()
    };
    assert(frame_entries(item_views)[0] == first@) by {
        if items.len() == 1 && item_views[0] is List {
            assert(item_views[0] == items@[0]@);
        }
    }
    let args = match get(&first, path2("frame", "args").as_slice()) {
        Some(MIRepr::Array(args)) => args,
        _ => return None,
    };
    proof {
        crate::mi_parse::lemma_array_view(args);
    }
    let ghost avs = crate::mi_parse::views(args@);
    let mut out: Vec<(String, String, String)> = Vec::new();
    let mut i: usize = 0;
    assert(avs.subrange(0, 0) =~= Seq::<Node>::empty());
    assert(triple_views(out@) =~= Seq::<(Seq<char>, Seq<char>, Seq<char>)>::empty());
    while i < args.len()
        invariant
            i <= args.len(),
            avs == crate::mi_parse::views(args@),
            spec_frame_args(repr@) == spec_collect_args(avs),
            spec_collect_args(avs.subrange(0, i as int)) == Some(triple_views(out@)),
        decreases args.len() - i,
    {
        let ghost p = avs.subrange(0, i + 1);
        assert(p.drop_last() =~= avs.subrange(0, i as int));
        assert(p.last() == args@[i as int]@);
        match arg(&args[i]) {
            Some(t) => {
                let ghost before = out@;
                out.push(t);
                assert(triple_views(out@) =~= triple_views(before).push((t.0@, t.1@, t.2@)));
            },
            None => {
                proof {
                    lemma_collect_args_none(avs, i + 1);
                }
                return None;
            },
        }
        i += 1;
    }
    assert(avs.subrange(0, i as int) =~= avs);
    Some(out)
}

/// Projecting along the empty path gives the value itself.
pub proof fn lemma_project_empty(v: Node)
    ensures
        project(v, Seq::empty()) == Some(v),
{
}

/// Two projections of one value along one path give equal results: any two
/// results that `get` may return for the same arguments are equal.
pub proof fn lemma_get_repeatable(
    data: MIRepr,
    query: Seq<&str>,
    first: Option<MIRepr>,
    second: Option<MIRepr>,
)
    requires
        opt_node(first) == project(data@, path_of(query)),
        opt_node(second) == project(data@, path_of(query)),
    ensures
        opt_node(first) == opt_node(second),
        project(data@, path_of(query)) is Some ==> project(
            project(data@, path_of(query))->0,
            Seq::empty(),
        ) == project(data@, path_of(query)),
{
}

} // verus!
