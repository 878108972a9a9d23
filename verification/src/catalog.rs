use crate::engine::EngineSession;
use crate::remote_functions::FunctionType;
use crate::remote_functions::RemoteFunction;
use crate::remote_functions::RemoteFunctionV;
use vstd::pervasive::arbitrary;
use vstd::prelude::*;

verus! {

/// An introspection view of one available function: its kind and name, and
/// whatever metadata is known. Functions discovered only through the engine
/// session carry no return type, parameters or description.
#[derive(Clone, Debug)]
pub struct FunctionCatalogEntry {
    pub function_type: FunctionType,
    pub name: String,
    pub return_type: Option<String>,
    pub param_names: Option<Vec<String>>,
    pub param_types: Option<Vec<String>>,
    pub description: Option<String>,
}

/// The mathematical shape of a catalog entry.
pub ghost struct FunctionCatalogEntryV {
    pub function_type: FunctionType,
    pub name: Seq<char>,
    pub return_type: Option<Seq<char>>,
    pub param_names: Option<Seq<Seq<char>>>,
    pub param_types: Option<Seq<Seq<char>>>,
    pub description: Option<Seq<char>>,
}

impl View for FunctionCatalogEntry {
    type V = FunctionCatalogEntryV;

    open spec fn view(&self) -> FunctionCatalogEntryV {
        FunctionCatalogEntryV {
            function_type: self.function_type,
            name: self.name@,
            return_type: self.return_type.deep_view(),
            param_names: self.param_names.deep_view(),
            param_types: self.param_types.deep_view(),
            description: self.description.deep_view(),
        }
    }
}

impl DeepView for FunctionCatalogEntry {
    type V = FunctionCatalogEntryV;

    open spec fn deep_view(&self) -> FunctionCatalogEntryV {
        self.view()
    }
}

/// The entry a remote-catalog function contributes: all its metadata.
pub open spec fn entry_of_remote(f: RemoteFunctionV) -> FunctionCatalogEntryV {
    FunctionCatalogEntryV {
        function_type: f.function_type,
        name: f.name,
        return_type: Some(f.return_type),
        param_names: f.param_names,
        param_types: f.param_types,
        description: f.description,
    }
}

/// The entry of a function known only from the engine session: its
/// discovered kind and name, everything else unknown.
pub open spec fn entry_of_engine(kind: FunctionType, name: Seq<char>) -> FunctionCatalogEntryV {
    FunctionCatalogEntryV {
        function_type: kind,
        name: name,
        return_type: None,
        param_names: None,
        param_types: None,
        description: None,
    }
}

/// Does some remote-catalog function carry this name?
pub open spec fn remote_has_name(fs: Seq<RemoteFunctionV>, name: Seq<char>) -> bool {
    exists|i: int| 0 <= i < fs.len() && fs[i].name == name
}

/// The last remote-catalog function carrying a name: among duplicates the
/// later entry wins.
pub open spec fn last_remote_with_name(fs: Seq<RemoteFunctionV>, name: Seq<char>) -> RemoteFunctionV
    decreases fs.len(),
{
    if fs.len() == 0 {
        arbitrary()
    } else if fs.last().name == name {
        fs.last()
    } else {
        last_remote_with_name(fs.drop_last(), name)
    }
}

/// What one merged entry must be: the remote catalog takes precedence; a
/// name absent from it contributes an engine-derived entry of the first
/// kind — scalar, then aggregate, then window — whose registry holds it.
pub open spec fn entry_valid(
    fs: Seq<RemoteFunctionV>,
    scalar: Seq<Seq<char>>,
    aggregate: Seq<Seq<char>>,
    window: Seq<Seq<char>>,
    e: FunctionCatalogEntryV,
) -> bool {
    if remote_has_name(fs, e.name) {
        e == entry_of_remote(last_remote_with_name(fs, e.name))
    } else if scalar.contains(e.name) {
        e == entry_of_engine(FunctionType::Scalar, e.name)
    } else if aggregate.contains(e.name) {
        e == entry_of_engine(FunctionType::Aggregate, e.name)
    } else if window.contains(e.name) {
        e == entry_of_engine(FunctionType::Window, e.name)
    } else {
        false
    }
}

/// No two entries carry the same name.
pub open spec fn names_unique(es: Seq<FunctionCatalogEntryV>) -> bool {
    forall|i: int, j: int| 0 <= i < j < es.len() ==> es[i].name != es[j].name
}

/// Does some entry carry this name?
pub open spec fn has_entry_named(es: Seq<FunctionCatalogEntryV>, name: Seq<char>) -> bool {
    exists|i: int| 0 <= i < es.len() && es[i].name == name
}

/// Copy a list of strings.
fn clone_strings(xs: &Vec<String>) -> (r: Vec<String>)
    ensures
        r.deep_view() == xs.deep_view(),
{
    let mut out: Vec<String> = Vec::new();
    let mut i: usize = 0;
    proof {
        assert(out.deep_view() =~= xs.deep_view().take(0));
    }
    while i < xs.len()
        invariant
            i <= xs@.len(),
            out@.len() == i,
            out.deep_view() == xs.deep_view().take(i as int),
        decreases xs@.len() - i,
    {
        let ghost prev = out.deep_view();
        let ghost prevq = out@;
        out.push(xs[i].clone());
        proof {
            assert(out@ == prevq.push(out@[i as int]));
            assert(out@[i as int]@ == xs@[i as int]@);
            let dv = out.deep_view();
            let target = xs.deep_view().take(i + 1);
            assert forall|j: int| 0 <= j < dv.len() implies dv[j] == target[j] by {
                assert(dv[j] == out@[j].deep_view());
                assert(target[j] == xs.deep_view()[j]);
                if j < i {
                    assert(out@[j] == prevq[j]);
                    assert(prev[j] == xs.deep_view().take(i as int)[j]);
                }
            }
            assert(dv =~= target);
        }
        i = i + 1;
    }
    proof {
        assert(xs.deep_view().take(xs@.len() as int) =~= xs.deep_view());
    }
    out
}

/// Copy an optional list of strings.
fn clone_opt_strings(v: &Option<Vec<String>>) -> (r: Option<Vec<String>>)
    ensures
        r.deep_view() == v.deep_view(),
{
    match v {
        None => None,
        Some(xs) => Some(clone_strings(xs)),
    }
}

/// Copy an optional string.
fn clone_opt_string(v: &Option<String>) -> (r: Option<String>)
    ensures
        r.deep_view() == v.deep_view(),
{
    match v {
        None => None,
        Some(s) => Some(s.clone()),
    }
}

/// The catalog entry of a remote function, with all its metadata.
fn remote_entry(f: &RemoteFunction) -> (r: FunctionCatalogEntry)
    ensures
        r@ == entry_of_remote(f@),
{
    FunctionCatalogEntry {
        function_type: f.function_type,
        name: f.name.clone(),
        return_type: Some(f.return_type.clone()),
        param_names: clone_opt_strings(&f.param_names),
        param_types: clone_opt_strings(&f.param_types),
        description: clone_opt_string(&f.description),
    }
}

/// The catalog entry of a function discovered through the engine session.
fn engine_entry(kind: FunctionType, name: &String) -> (r: FunctionCatalogEntry)
    ensures
        r@ == entry_of_engine(kind, name@),
{
    FunctionCatalogEntry {
        function_type: kind,
        name: name.clone(),
        return_type: None,
        param_names: None,
        param_types: None,
        description: None,
    }
}

/// The position of the entry carrying a name, if any.
fn find_entry(es: &Vec<FunctionCatalogEntry>, name: &String) -> (r: Option<usize>)
    ensures
        match r {
            Some(i) => i < es@.len() && es.deep_view()[i as int].name == name@,
            None => forall|j: int|
                0 <= j < es.deep_view().len() ==> es.deep_view()[j].name != name@,
        },
{
    let n = es.len();
    let mut i: usize = 0;
    while i < n
        invariant
            i <= n,
            n == es@.len(),
            es.deep_view().len() == es@.len(),
            forall|j: int| 0 <= j < i ==> es.deep_view()[j].name != name@,
        decreases n - i,
    {
        if es[i].name.eq(name) {
            return Some(i);
        }
        i = i + 1;
    }
    None
}

/// Add to `out` an engine-derived entry for every name of `names` that no
/// entry carries yet; names already present — from the remote catalog or
/// from an earlier kind — are left to the entry they already have.
fn add_engine_names(
    out: &mut Vec<FunctionCatalogEntry>,
    names: &Vec<String>,
    kind: FunctionType,
    Ghost(fs): Ghost<Seq<RemoteFunctionV>>,
    Ghost(scalar): Ghost<Seq<Seq<char>>>,
    Ghost(aggregate): Ghost<Seq<Seq<char>>>,
    Ghost(window): Ghost<Seq<Seq<char>>>,
)
    requires
        names.deep_view() == match kind {
            FunctionType::Scalar => scalar,
            FunctionType::Aggregate => aggregate,
            FunctionType::Window => window,
        },
        names_unique(old(out).deep_view()),
        forall|e: int| #![trigger old(out).deep_view()[e]]
            0 <= e < old(out).deep_view().len() ==> entry_valid(
                fs,
                scalar,
                aggregate,
                window,
                old(out).deep_view()[e],
            ),
        forall|i: int| 0 <= i < fs.len() ==> has_entry_named(old(out).deep_view(), fs[i].name),
        kind != FunctionType::Scalar ==> forall|i: int|
            0 <= i < scalar.len() ==> has_entry_named(old(out).deep_view(), scalar[i]),
        kind == FunctionType::Window ==> forall|i: int|
            0 <= i < aggregate.len() ==> has_entry_named(old(out).deep_view(), aggregate[i]),
    ensures
        names_unique(final(out).deep_view()),
        forall|e: int| #![trigger final(out).deep_view()[e]]
            0 <= e < final(out).deep_view().len() ==> entry_valid(
                fs,
                scalar,
                aggregate,
                window,
                final(out).deep_view()[e],
            ),
        forall|n: Seq<char>| #![trigger has_entry_named(final(out).deep_view(), n)]
            has_entry_named(old(out).deep_view(), n) ==> has_entry_named(
                final(out).deep_view(),
                n,
            ),
        forall|i: int| 0 <= i < names.deep_view().len() ==> has_entry_named(
            final(out).deep_view(),
            names.deep_view()[i],
        ),
{
    let ghost init = out.deep_view();
    let ghost own = names.deep_view();
    let mut m: usize = 0;
    while m < names.len()
        invariant
            m <= names@.len(),
            own == names.deep_view(),
            own.len() == names@.len(),
            own == match kind {
                FunctionType::Scalar => scalar,
                FunctionType::Aggregate => aggregate,
                FunctionType::Window => window,
            },
            names_unique(out.deep_view()),
            forall|e: int| #![trigger out.deep_view()[e]]
                0 <= e < out.deep_view().len() ==> entry_valid(
                    fs,
                    scalar,
                    aggregate,
                    window,
                    out.deep_view()[e],
                ),
            forall|n: Seq<char>| #![trigger has_entry_named(out.deep_view(), n)]
                has_entry_named(init, n) ==> has_entry_named(out.deep_view(), n),
            forall|i: int| 0 <= i < fs.len() ==> has_entry_named(init, fs[i].name),
            kind != FunctionType::Scalar ==> forall|i: int|
                0 <= i < scalar.len() ==> has_entry_named(init, scalar[i]),
            kind == FunctionType::Window ==> forall|i: int|
                0 <= i < aggregate.len() ==> has_entry_named(init, aggregate[i]),
            forall|j: int| 0 <= j < m ==> has_entry_named(out.deep_view(), own[j]),
        decreases names@.len() - m,
    {
        let name = &names[m];
        proof {
            assert(own[m as int] == name@);
        }
        match find_entry(out, name) {
            Some(idx) => {
                proof {
                    assert(out.deep_view()[idx as int].name == name@);
                    assert(has_entry_named(out.deep_view(), own[m as int]));
                }
            },
            None => {
                let ghost pre = out.deep_view();
                let e = engine_entry(kind, name);
                out.push(e);
                proof {
                    assert(out.deep_view() =~= pre.push(e@));
                    // the pushed name is nowhere in the remote catalog nor in
                    // any earlier kind's registry, else an entry would carry it
                    assert(!remote_has_name(fs, name@)) by {
                        if remote_has_name(fs, name@) {
                            let w = choose|i: int|
                                0 <= i < fs.len() && fs[i].name == name@;
                            assert(has_entry_named(init, fs[w].name));
                            assert(has_entry_named(pre, name@));
                            let v = choose|i: int|
                                0 <= i < pre.len() && pre[i].name == name@;
                            assert(pre[v].name != name@);
                        }
                    }
                    if kind != FunctionType::Scalar {
                        assert(!scalar.contains(name@)) by {
                            if scalar.contains(name@) {
                                let w = choose|i: int|
                                    0 <= i < scalar.len() && scalar[i] == name@;
                                assert(has_entry_named(init, scalar[w]));
                                assert(has_entry_named(pre, name@));
                                let v = choose|i: int|
                                    0 <= i < pre.len() && pre[i].name == name@;
                                assert(pre[v].name != name@);
                            }
                        }
                    }
                    if kind == FunctionType::Window {
                        assert(!aggregate.contains(name@)) by {
                            if aggregate.contains(name@) {
                                let w = choose|i: int|
                                    0 <= i < aggregate.len() && aggregate[i] == name@;
                                assert(has_entry_named(init, aggregate[w]));
                                assert(has_entry_named(pre, name@));
                                let v = choose|i: int|
                                    0 <= i < pre.len() && pre[i].name == name@;
                                assert(pre[v].name != name@);
                            }
                        }
                    }
                    assert(own.contains(name@)) by {
                        assert(own[m as int] == name@);
                    }
                    assert(entry_valid(fs, scalar, aggregate, window, e@));
                    assert forall|e2: int|
                        0 <= e2 < out.deep_view().len() implies entry_valid(
                        fs,
                        scalar,
                        aggregate,
                        window,
                        #[trigger] out.deep_view()[e2],
                    ) by {
                        if e2 < pre.len() {
                            assert(out.deep_view()[e2] == pre[e2]);
                        }
                    }
                    assert forall|n: Seq<char>|
                        has_entry_named(init, n) implies #[trigger] has_entry_named(
                        out.deep_view(),
                        n,
                    ) by {
                        if has_entry_named(pre, n) {
                            let v = choose|i: int| 0 <= i < pre.len() && pre[i].name == n;
                            assert(out.deep_view()[v].name == n);
                        }
                    }
                    assert forall|j: int| 0 <= j < m + 1 implies has_entry_named(
                        out.deep_view(),
                        own[j],
                    ) by {
                        if j < m {
                            assert(has_entry_named(pre, own[j]));
                            let v = choose|i: int| 0 <= i < pre.len() && pre[i].name == own[j];
                            assert(out.deep_view()[v].name == own[j]);
                        } else {
                            assert(out.deep_view()[pre.len() as int].name == own[j]);
                        }
                    }
                }
            },
        }
        m = m + 1;
    }
}

/// Put an entry into the list under its name: replace the entry already
/// carrying that name, or add one. Every other entry stays.
fn upsert_entry(out: &mut Vec<FunctionCatalogEntry>, entry: FunctionCatalogEntry)
    requires
        names_unique(old(out).deep_view()),
    ensures
        names_unique(final(out).deep_view()),
        has_entry_named(final(out).deep_view(), entry@.name),
        forall|e: int| #![trigger final(out).deep_view()[e]]
            0 <= e < final(out).deep_view().len() ==> (final(out).deep_view()[e] == entry@ || (
            final(out).deep_view()[e].name != entry@.name && exists|i: int|
                0 <= i < old(out).deep_view().len() && old(out).deep_view()[i]
                    == final(out).deep_view()[e])),
        forall|i: int| #![trigger old(out).deep_view()[i]]
            0 <= i < old(out).deep_view().len() && old(out).deep_view()[i].name != entry@.name
            ==> has_entry_named(final(out).deep_view(), old(out).deep_view()[i].name),
{
    let ghost pre = out.deep_view();
    match find_entry(out, &entry.name) {
        Some(idx) => {
            out.remove(idx);
            out.push(entry);
            proof {
                let mid = pre.remove(idx as int);
                assert(out.deep_view() =~= mid.push(entry@));
                let now = out.deep_view();
                assert forall|e: int| 0 <= e < mid.len() implies mid[e] == (if e < idx {
                    pre[e]
                } else {
                    pre[e + 1]
                }) by {}
                assert forall|e: int|
                    0 <= e < now.len() implies (#[trigger] now[e] == entry@ || (now[e].name
                    != entry@.name && exists|i: int| 0 <= i < pre.len() && pre[i] == now[e])) by {
                    if e < mid.len() {
                        let i0 = if e < idx {
                            e
                        } else {
                            e + 1
                        };
                        assert(pre[i0] == now[e]);
                        assert(i0 != idx);
                        if now[e].name == entry@.name {
                            assert(pre[idx as int].name == entry@.name);
                            if i0 < idx {
                                assert(pre[i0].name != pre[idx as int].name);
                            } else {
                                assert(pre[idx as int].name != pre[i0].name);
                            }
                        }
                    }
                }
                assert(names_unique(now)) by {
                    assert forall|a: int, b: int| 0 <= a < b < now.len() implies now[a].name
                        != now[b].name by {
                        if b < mid.len() {
                            let a0 = if a < idx {
                                a
                            } else {
                                a + 1
                            };
                            let b0 = if b < idx {
                                b
                            } else {
                                b + 1
                            };
                            assert(now[a] == pre[a0] && now[b] == pre[b0]);
                        } else {
                            assert(now[b] == entry@);
                        }
                    }
                }
                assert forall|i: int|
                    0 <= i < pre.len() && (#[trigger] pre[i]).name != entry@.name
                    implies has_entry_named(now, pre[i].name) by {
                    assert(i != idx);
                    let e = if i < idx {
                        i
                    } else {
                        i - 1
                    };
                    assert(now[e] == pre[i]);
                }
                assert(now[now.len() - 1] == entry@);
            }
        },
        None => {
            out.push(entry);
            proof {
                let now = out.deep_view();
                assert(now =~= pre.push(entry@));
                assert(now[now.len() - 1] == entry@);
                assert forall|i: int|
                    0 <= i < pre.len() && (#[trigger] pre[i]).name != entry@.name
                    implies has_entry_named(now, pre[i].name) by {
                    assert(now[i] == pre[i]);
                }
            }
        },
    }
}

/// Merge the remote-function catalog with everything the engine session has
/// registered, keyed by name. The remote catalog wins a name collision and
/// keeps its metadata; names known only to the session contribute bare
/// entries, scanned scalar first, then aggregate, then window. No order is
/// promised — only that every name appears, and appears once.
pub fn merge_catalog(remote: &Vec<RemoteFunction>, session: &EngineSession) -> (r: Vec<
    FunctionCatalogEntry,
>)
    ensures
        names_unique(r.deep_view()),
        forall|e: int| #![trigger r.deep_view()[e]]
            0 <= e < r.deep_view().len() ==> entry_valid(
                remote.deep_view(),
                session.names_of(FunctionType::Scalar),
                session.names_of(FunctionType::Aggregate),
                session.names_of(FunctionType::Window),
                r.deep_view()[e],
            ),
        forall|i: int| 0 <= i < remote.deep_view().len() ==> has_entry_named(
            r.deep_view(),
            remote.deep_view()[i].name,
        ),
        forall|i: int| 0 <= i < session.names_of(FunctionType::Scalar).len() ==> has_entry_named(
            r.deep_view(),
            session.names_of(FunctionType::Scalar)[i],
        ),
        forall|i: int| 0 <= i < session.names_of(FunctionType::Aggregate).len()
            ==> has_entry_named(r.deep_view(), session.names_of(FunctionType::Aggregate)[i]),
        forall|i: int| 0 <= i < session.names_of(FunctionType::Window).len() ==> has_entry_named(
            r.deep_view(),
            session.names_of(FunctionType::Window)[i],
        ),
{
    let ghost fs = remote.deep_view();
    let ghost sc = session.names_of(FunctionType::Scalar);
    let ghost ag = session.names_of(FunctionType::Aggregate);
    let ghost wd = session.names_of(FunctionType::Window);
    let mut out: Vec<FunctionCatalogEntry> = Vec::new();
    let mut i: usize = 0;
    proof {
        assert(fs.take(0) =~= Seq::<RemoteFunctionV>::empty());
    }
    while i < remote.len()
        invariant
            i <= remote@.len(),
            fs == remote.deep_view(),
            fs.len() == remote@.len(),
            names_unique(out.deep_view()),
            forall|e: int| #![trigger out.deep_view()[e]]
                0 <= e < out.deep_view().len() ==> remote_has_name(
                    fs.take(i as int),
                    out.deep_view()[e].name,
                ) && out.deep_view()[e] == entry_of_remote(
                    last_remote_with_name(fs.take(i as int), out.deep_view()[e].name),
                ),
            forall|j: int| 0 <= j < i ==> has_entry_named(out.deep_view(), fs[j].name),
        decreases remote@.len() - i,
    {
        let f = &remote[i];
        let ghost pre = out.deep_view();
        proof {
            assert(fs.take(i + 1).drop_last() =~= fs.take(i as int));
            assert(fs.take(i + 1).last() == fs[i as int]);
            assert(fs[i as int] == remote@[i as int].deep_view());
            assert(f@ == fs[i as int]);
        }
        let entry = remote_entry(f);
        upsert_entry(&mut out, entry);
        proof {
            let now = out.deep_view();
            let k = i as int;
            let fname = fs[k].name;
            assert(last_remote_with_name(fs.take(k + 1), fname) == fs[k]);
            assert(fs.take(k + 1)[k] == fs[k]);
            assert forall|e: int| 0 <= e < now.len() implies remote_has_name(
                fs.take(k + 1),
                (#[trigger] now[e]).name,
            ) && now[e] == entry_of_remote(last_remote_with_name(fs.take(k + 1), now[e].name)) by {
                if now[e] == entry_of_remote(fs[k]) && now[e].name == fname {
                    assert(remote_has_name(fs.take(k + 1), fname));
                } else {
                    assert(now[e].name != fname);
                    let i0 = choose|i0: int| 0 <= i0 < pre.len() && pre[i0] == now[e];
                    assert(remote_has_name(fs.take(k), now[e].name));
                    let w = choose|w: int|
                        0 <= w < fs.take(k).len() && fs.take(k)[w].name == now[e].name;
                    assert(fs.take(k + 1)[w].name == now[e].name);
                    assert(remote_has_name(fs.take(k + 1), now[e].name));
                    assert(last_remote_with_name(fs.take(k + 1), now[e].name)
                        == last_remote_with_name(fs.take(k), now[e].name));
                }
            }
            assert forall|j: int| 0 <= j < k + 1 implies has_entry_named(
                now,
                (#[trigger] fs[j]).name,
            ) by {
                if j == k || fs[j].name == fname {
                    assert(has_entry_named(now, fname));
                } else {
                    let v = choose|v: int| 0 <= v < pre.len() && pre[v].name == fs[j].name;
                    assert(pre[v].name != fname);
                    assert(has_entry_named(now, pre[v].name));
                }
            }
        }
        i = i + 1;
    }
    proof {
        assert(fs.take(remote@.len() as int) =~= fs);
        assert forall|e: int|
            0 <= e < out.deep_view().len() implies entry_valid(
            fs,
            sc,
            ag,
            wd,
            #[trigger] out.deep_view()[e],
        ) by {
            assert(remote_has_name(fs, out.deep_view()[e].name));
        }
    }
    add_engine_names(
        &mut out,
        session.list(FunctionType::Scalar),
        FunctionType::Scalar,
        Ghost(fs),
        Ghost(sc),
        Ghost(ag),
        Ghost(wd),
    );
    add_engine_names(
        &mut out,
        session.list(FunctionType::Aggregate),
        FunctionType::Aggregate,
        Ghost(fs),
        Ghost(sc),
        Ghost(ag),
        Ghost(wd),
    );
    add_engine_names(
        &mut out,
        session.list(FunctionType::Window),
        FunctionType::Window,
        Ghost(fs),
        Ghost(sc),
        Ghost(ag),
        Ghost(wd),
    );
    out
}

} // verus!
