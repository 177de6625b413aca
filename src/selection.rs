//! The user's selection of named layers (projects) and ad-hoc targets, and
//! the catalog of named layers that it draws on.
use crate::order::views;
use vstd::prelude::*;

verus! {

/// A named layer: a name and the build coordinates it expands to.
pub struct Project {
    pub name: String,
    pub targets: Vec<String>,
}

/// The named layers available in a repository.
pub struct ProjectCatalog {
    pub optional_projects: Vec<Project>,
}

/// What the user has chosen: named layers, in the order they were chosen,
/// and ad-hoc build coordinates.
pub struct Selection {
    pub projects: Vec<String>,
    pub targets: Vec<String>,
}

#[derive(Clone, Copy, Debug, PartialEq, Eq, Structural)]
pub enum OperationAction {
    Add,
    Remove,
}

#[derive(Clone, Debug, PartialEq, Eq)]
pub enum SelectionError {
    /// An empty name was given.
    EmptyName,
    /// A name that the catalog does not hold was given where a layer is needed.
    UnknownProject(String),
    /// More layers were to be popped than are selected.
    InvalidArgument,
    /// A stored entry that is neither a layer nor a target.
    MalformedEntry(String),
    /// A stored entry that repeats an earlier one.
    DuplicateEntry(String),
}

/// A catalog as pairs of layer name and expansion.
pub open spec fn catalog_view(c: Seq<Project>) -> Seq<(Seq<char>, Seq<Seq<char>>)> {
    c.map_values(|p: Project| (p.name@, views(p.targets@)))
}

/// The expansion of the first layer of the catalog with the given name.
pub open spec fn lookup_layer(cat: Seq<(Seq<char>, Seq<Seq<char>>)>, name: Seq<char>) -> Option<
    Seq<Seq<char>>,
>
    decreases cat.len(),
{
    if cat.len() == 0 {
        None
    } else if cat[0].0 == name {
        Some(cat[0].1)
    } else {
        lookup_layer(cat.drop_first(), name)
    }
}

pub open spec fn is_layer(cat: Seq<(Seq<char>, Seq<Seq<char>>)>, name: Seq<char>) -> bool {
    lookup_layer(cat, name) is Some
}

/// `s` with `n` appended, unless it is already there.
pub open spec fn with_name(s: Seq<Seq<char>>, n: Seq<char>) -> Seq<Seq<char>> {
    if s.contains(n) {
        s
    } else {
        s.push(n)
    }
}

/// `s` without `n`.
pub open spec fn without_name(s: Seq<Seq<char>>, n: Seq<char>) -> Seq<Seq<char>> {
    if s.contains(n) {
        s.remove(s.index_of(n))
    } else {
        s
    }
}

/// One name applied to a selection: an added name goes to the layers when
/// the catalog knows it and to the ad-hoc targets otherwise; a removed name
/// leaves both.
pub open spec fn apply_one(
    action: OperationAction,
    cat: Seq<(Seq<char>, Seq<Seq<char>>)>,
    sel: (Seq<Seq<char>>, Seq<Seq<char>>),
    n: Seq<char>,
) -> (Seq<Seq<char>>, Seq<Seq<char>>) {
    match action {
        OperationAction::Add => if is_layer(cat, n) {
            (with_name(sel.0, n), sel.1)
        } else {
            (sel.0, with_name(sel.1, n))
        },
        OperationAction::Remove => (without_name(sel.0, n), without_name(sel.1, n)),
    }
}

/// The names applied one after the other, first to last.
pub open spec fn apply_names(
    action: OperationAction,
    cat: Seq<(Seq<char>, Seq<Seq<char>>)>,
    sel: (Seq<Seq<char>>, Seq<Seq<char>>),
    names: Seq<Seq<char>>,
) -> (Seq<Seq<char>>, Seq<Seq<char>>)
    decreases names.len(),
{
    if names.len() == 0 {
        sel
    } else {
        apply_one(action, cat, apply_names(action, cat, sel, names.drop_last()), names.last())
    }
}

pub open spec fn all_nonempty(names: Seq<Seq<char>>) -> bool {
    forall|i: int| 0 <= i < names.len() ==> (#[trigger] names[i]).len() > 0
}

impl ProjectCatalog {
    pub open spec fn view_layers(&self) -> Seq<(Seq<char>, Seq<Seq<char>>)> {
        catalog_view(self.optional_projects@)
    }

    /// The index of the first layer with the given name.
    pub fn find(&self, name: &String) -> (r: Option<usize>)
        ensures
            match r {
                Some(i) => i < self.optional_projects@.len() && self.optional_projects@[i as int].name@
                    == name@ && lookup_layer(self.view_layers(), name@) == Some(
                    views(self.optional_projects@[i as int].targets@),
                ),
                None => lookup_layer(self.view_layers(), name@) is None,
            },
    {
        let ghost cat = self.view_layers();
        let n = self.optional_projects.len();
        let mut i: usize = 0;
        assert(cat.skip(0) =~= cat);
        while i < n
            invariant
                n == self.optional_projects@.len(),
                cat == self.view_layers(),
                i <= n,
                lookup_layer(cat, name@) == lookup_layer(cat.skip(i as int), name@),
            decreases n - i,
        {
            assert(cat.skip(i as int)[0] == cat[i as int]);
            if self.optional_projects[i].name == *name {
                return Some(i);
            }
            assert(cat.skip(i as int).drop_first() =~= cat.skip(i + 1));
            i = i + 1;
        }
        None
    }
}

/// The index of `n` in `v`, if it is there.
pub fn position(v: &Vec<String>, n: &String) -> (r: Option<usize>)
    ensures
        match r {
            Some(i) => i < v@.len() && v@[i as int]@ == n@,
            None => !views(v@).contains(n@),
        },
{
    let len = v.len();
    let mut i: usize = 0;
    while i < len
        invariant
            len == v@.len(),
            i <= len,
            forall|k: int| 0 <= k < i ==> (#[trigger] views(v@)[k]) != n@,
        decreases len - i,
    {
        if v[i] == *n {
            return Some(i);
        }
        i = i + 1;
    }
    None
}

/// Appends `n` unless it is already present; reports whether it was added.
fn add_name(v: &mut Vec<String>, n: &String) -> (added: bool)
    requires
        views(old(v)@).no_duplicates(),
    ensures
        views(final(v)@) == with_name(views(old(v)@), n@),
        views(final(v)@).no_duplicates(),
        added == !views(old(v)@).contains(n@),
{
    match position(v, n) {
        Some(i) => {
            assert(views(v@)[i as int] == n@);
            false
        },
        None => {
            v.push(n.clone());
            assert(views(v@) =~= views(old(v)@).push(n@));
            true
        },
    }
}

/// Removes `n` if it is present; reports whether it was removed.
fn remove_name(v: &mut Vec<String>, n: &String) -> (removed: bool)
    requires
        views(old(v)@).no_duplicates(),
    ensures
        views(final(v)@) == without_name(views(old(v)@), n@),
        views(final(v)@).no_duplicates(),
        removed == views(old(v)@).contains(n@),
{
    let ghost s = views(v@);
    match position(v, n) {
        Some(i) => {
            assert(s[i as int] == n@);
            assert(s.contains(n@));
            assert(s.index_of(n@) == i);
            v.remove(i);
            assert(views(v@) =~= s.remove(i as int));
            true
        },
        None => false,
    }
}

impl Selection {
    pub open spec fn view_pair(&self) -> (Seq<Seq<char>>, Seq<Seq<char>>) {
        (views(self.projects@), views(self.targets@))
    }

    /// No layer and no target is held twice.
    pub open spec fn wf(&self) -> bool {
        views(self.projects@).no_duplicates() && views(self.targets@).no_duplicates()
    }

    pub fn new() -> (r: Selection)
        ensures
            r.wf(),
            r.projects@.len() == 0,
            r.targets@.len() == 0,
    {
        Selection { projects: Vec::new(), targets: Vec::new() }
    }
}

/// Whether every name is nonempty.
fn names_nonempty(names: &Vec<String>) -> (r: bool)
    ensures
        r == all_nonempty(views(names@)),
{
    let n = names.len();
    let mut i: usize = 0;
    while i < n
        invariant
            n == names@.len(),
            i <= n,
            forall|k: int| 0 <= k < i ==> (#[trigger] views(names@)[k]).len() > 0,
        decreases n - i,
    {
        if names[i].as_str().unicode_len() == 0 {
            assert(views(names@)[i as int].len() == 0);
            return false;
        }
        i = i + 1;
    }
    true
}

/// Adds or removes every name. On success the selection is the names
/// applied in order, and the result says whether it changed; on an empty
/// name nothing is applied.
pub fn mutate(
    selection: &mut Selection,
    catalog: &ProjectCatalog,
    action: OperationAction,
    names: &Vec<String>,
) -> (r: Result<bool, SelectionError>)
    requires
        old(selection).wf(),
    ensures
        final(selection).wf(),
        r is Err <==> !all_nonempty(views(names@)),
        r is Err ==> r == Err::<bool, SelectionError>(SelectionError::EmptyName) && final(selection).view_pair()
            == old(selection).view_pair(),
        r matches Ok(changed) ==> final(selection).view_pair() == apply_names(
            action,
            catalog.view_layers(),
            old(selection).view_pair(),
            views(names@),
        ) && changed == (final(selection).view_pair() != old(selection).view_pair()),
{
    if !names_nonempty(names) {
        return Err(SelectionError::EmptyName);
    }
    let ghost cat = catalog.view_layers();
    let ghost start = selection.view_pair();
    let ghost ns = views(names@);
    let n = names.len();
    let mut changed = false;
    let mut i: usize = 0;
    assert(ns.take(0) =~= Seq::<Seq<char>>::empty());
    while i < n
        invariant
            n == names@.len(),
            i <= n,
            ns == views(names@),
            cat == catalog.view_layers(),
            selection.wf(),
            selection.view_pair() == apply_names(action, cat, start, ns.take(i as int)),
            changed == (selection.view_pair() != start),
            action == OperationAction::Add ==> selection.projects@.len() >= start.0.len()
                && selection.targets@.len() >= start.1.len() && (selection.view_pair() != start
                <==> selection.projects@.len() + selection.targets@.len() > start.0.len()
                + start.1.len()),
            action == OperationAction::Remove ==> selection.projects@.len() <= start.0.len()
                && selection.targets@.len() <= start.1.len() && (selection.view_pair() != start
                <==> selection.projects@.len() + selection.targets@.len() < start.0.len()
                + start.1.len()),
        decreases n - i,
    {
        let name = &names[i];
        assert(ns.take(i + 1).drop_last() =~= ns.take(i as int));
        assert(ns.take(i + 1).last() == name@);
        match action {
            OperationAction::Add => {
                let known = catalog.find(name);
                let added = if known.is_some() {
                    add_name(&mut selection.projects, name)
                } else {
                    add_name(&mut selection.targets, name)
                };
                changed = changed || added;
                assert(views(selection.targets@).len() == selection.targets@.len());
                assert(views(selection.projects@).len() == selection.projects@.len());
            },
            OperationAction::Remove => {
                let a = remove_name(&mut selection.projects, name);
                let b = remove_name(&mut selection.targets, name);
                changed = changed || a || b;
                assert(views(selection.targets@).len() == selection.targets@.len());
                assert(views(selection.projects@).len() == selection.projects@.len());
            },
        }
        i = i + 1;
    }
    assert(ns.take(n as int) =~= ns);
    Ok(changed)
}

/// Adds the names: layers the catalog knows, ad-hoc targets otherwise.
pub fn add(selection: &mut Selection, catalog: &ProjectCatalog, names: &Vec<String>) -> (r: Result<
    bool,
    SelectionError,
>)
    requires
        old(selection).wf(),
    ensures
        final(selection).wf(),
        r is Err <==> !all_nonempty(views(names@)),
        r is Err ==> final(selection).view_pair() == old(selection).view_pair(),
        r matches Ok(changed) ==> final(selection).view_pair() == apply_names(
            OperationAction::Add,
            catalog.view_layers(),
            old(selection).view_pair(),
            views(names@),
        ) && changed == (final(selection).view_pair() != old(selection).view_pair()),
{
    mutate(selection, catalog, OperationAction::Add, names)
}

/// Removes the names from the layers and from the ad-hoc targets.
pub fn remove(selection: &mut Selection, catalog: &ProjectCatalog, names: &Vec<String>) -> (r:
    Result<bool, SelectionError>)
    requires
        old(selection).wf(),
    ensures
        final(selection).wf(),
        r is Err <==> !all_nonempty(views(names@)),
        r is Err ==> final(selection).view_pair() == old(selection).view_pair(),
        r matches Ok(changed) ==> final(selection).view_pair() == apply_names(
            OperationAction::Remove,
            catalog.view_layers(),
            old(selection).view_pair(),
            views(names@),
        ) && changed == (final(selection).view_pair() != old(selection).view_pair()),
{
    mutate(selection, catalog, OperationAction::Remove, names)
}

pub open spec fn all_layers(cat: Seq<(Seq<char>, Seq<Seq<char>>)>, names: Seq<Seq<char>>) -> bool {
    forall|i: int| 0 <= i < names.len() ==> is_layer(cat, #[trigger] names[i])
}

/// Pushes named layers onto the top of the selected stack. Every name must
/// be a layer of the catalog; otherwise nothing changes.
pub fn push_layers(selection: &mut Selection, catalog: &ProjectCatalog, names: &Vec<String>) -> (r:
    Result<bool, SelectionError>)
    requires
        old(selection).wf(),
    ensures
        final(selection).wf(),
        r is Ok <==> all_layers(catalog.view_layers(), views(names@)) && all_nonempty(
            views(names@),
        ),
        r is Err ==> final(selection).view_pair() == old(selection).view_pair(),
        r matches Err(SelectionError::UnknownProject(n)) ==> views(names@).contains(n@) && !is_layer(
            catalog.view_layers(),
            n@,
        ),
        r matches Err(e) ==> (e is UnknownProject <==> !all_layers(
            catalog.view_layers(),
            views(names@),
        )),
        r matches Ok(changed) ==> final(selection).view_pair() == apply_names(
            OperationAction::Add,
            catalog.view_layers(),
            old(selection).view_pair(),
            views(names@),
        ) && views(final(selection).targets@) == views(old(selection).targets@) && changed == (
        final(selection).view_pair() != old(selection).view_pair()),
{
    let ghost cat = catalog.view_layers();
    let n = names.len();
    let mut i: usize = 0;
    while i < n
        invariant
            n == names@.len(),
            i <= n,
            cat == catalog.view_layers(),
            selection.wf(),
            selection.view_pair() == old(selection).view_pair(),
            forall|k: int| 0 <= k < i ==> is_layer(cat, #[trigger] views(names@)[k]),
        decreases n - i,
    {
        if catalog.find(&names[i]).is_none() {
            assert(views(names@)[i as int] == names@[i as int]@);
            return Err(SelectionError::UnknownProject(names[i].clone()));
        }
        i = i + 1;
    }
    let ghost start = selection.view_pair();
    let r = mutate(selection, catalog, OperationAction::Add, names);
    proof {
        if r is Ok {
            lemma_add_layers_keeps_targets(cat, start, views(names@));
        }
    }
    r
}

proof fn lemma_add_layers_keeps_targets(
    cat: Seq<(Seq<char>, Seq<Seq<char>>)>,
    sel: (Seq<Seq<char>>, Seq<Seq<char>>),
    names: Seq<Seq<char>>,
)
    requires
        all_layers(cat, names),
    ensures
        apply_names(OperationAction::Add, cat, sel, names).1 == sel.1,
    decreases names.len(),
{
    if names.len() > 0 {
        assert forall|i: int| 0 <= i < names.drop_last().len() implies is_layer(
            cat,
            #[trigger] names.drop_last()[i],
        ) by {
            assert(names.drop_last()[i] == names[i]);
        }
        lemma_add_layers_keeps_targets(cat, sel, names.drop_last());
        assert(is_layer(cat, names[names.len() - 1]));
    }
}

/// Pops `count` layers off the top of the selected stack; more than are
/// selected is an invalid argument, and then nothing changes.
pub fn pop_layers(selection: &mut Selection, count: usize) -> (r: Result<(), SelectionError>)
    requires
        old(selection).wf(),
    ensures
        final(selection).wf(),
        final(selection).targets@ == old(selection).targets@,
        r is Err <==> count > old(selection).projects@.len(),
        r is Err ==> r == Err::<(), SelectionError>(SelectionError::InvalidArgument)
            && final(selection).projects@ == old(selection).projects@,
        r is Ok ==> final(selection).projects@ == old(selection).projects@.take(
            old(selection).projects@.len() - count,
        ),
{
    let len = selection.projects.len();
    if count > len {
        return Err(SelectionError::InvalidArgument);
    }
    selection.projects.truncate(len - count);
    assert(selection.projects@ =~= old(selection).projects@.take((len - count) as int));
    assert(views(selection.projects@) =~= views(old(selection).projects@).take(
        (len - count) as int,
    ));
    Ok(())
}

/// Adding one name twice: the second time changes nothing, and the first
/// changes the selection exactly when the name was not yet selected in the
/// list it belongs to.
pub proof fn lemma_add_twice(
    cat: Seq<(Seq<char>, Seq<Seq<char>>)>,
    sel: (Seq<Seq<char>>, Seq<Seq<char>>),
    x: Seq<char>,
)
    ensures
        ({
            let once = apply_names(OperationAction::Add, cat, sel, seq![x]);
            &&& apply_names(OperationAction::Add, cat, once, seq![x]) == once
            &&& (once != sel <==> if is_layer(cat, x) {
                !sel.0.contains(x)
            } else {
                !sel.1.contains(x)
            })
        }),
{
    let one = seq![x];
    reveal_with_fuel(apply_names, 2);
    assert(one.drop_last() =~= Seq::<Seq<char>>::empty());
    assert(one.last() == x);
    let once = apply_names(OperationAction::Add, cat, sel, one);
    assert(once == apply_one(OperationAction::Add, cat, sel, x));
    assert(once.0.contains(x) || once.1.contains(x)) by {
        if is_layer(cat, x) {
            if !sel.0.contains(x) {
                assert(sel.0.push(x)[sel.0.len() as int] == x);
            }
        } else {
            if !sel.1.contains(x) {
                assert(sel.1.push(x)[sel.1.len() as int] == x);
            }
        }
    }
    if is_layer(cat, x) {
        if !sel.0.contains(x) {
            assert(once.0.len() != sel.0.len());
        }
        assert(once.0.contains(x));
    } else {
        if !sel.1.contains(x) {
            assert(once.1.len() != sel.1.len());
        }
        assert(once.1.contains(x));
    }
}

/// Removing one name twice: the second time changes nothing, and the first
/// changes the selection exactly when the name was selected.
pub proof fn lemma_remove_twice(
    cat: Seq<(Seq<char>, Seq<Seq<char>>)>,
    sel: (Seq<Seq<char>>, Seq<Seq<char>>),
    x: Seq<char>,
)
    requires
        sel.0.no_duplicates(),
        sel.1.no_duplicates(),
    ensures
        ({
            let once = apply_names(OperationAction::Remove, cat, sel, seq![x]);
            &&& apply_names(OperationAction::Remove, cat, once, seq![x]) == once
            &&& (once != sel <==> sel.0.contains(x) || sel.1.contains(x))
        }),
{
    let one = seq![x];
    reveal_with_fuel(apply_names, 2);
    assert(one.drop_last() =~= Seq::<Seq<char>>::empty());
    assert(one.last() == x);
    lemma_without_absent(sel.0, x);
    lemma_without_absent(sel.1, x);
}

proof fn lemma_without_absent(s: Seq<Seq<char>>, x: Seq<char>)
    requires
        s.no_duplicates(),
    ensures
        !without_name(s, x).contains(x),
        s.contains(x) ==> without_name(s, x).len() == s.len() - 1,
{
    if s.contains(x) {
        let k = s.index_of(x);
        let r = s.remove(k);
        if r.contains(x) {
            let m = choose|m: int| 0 <= m < r.len() && r[m] == x;
            if m < k {
                assert(s[m] == x);
            } else {
                assert(s[m + 1] == x);
            }
        }
    }
}

pub open spec fn layer_prefix() -> Seq<char> {
    seq!['l', 'a', 'y', 'e', 'r', ' ']
}

pub open spec fn target_prefix() -> Seq<char> {
    seq!['t', 'a', 'r', 'g', 'e', 't', ' ']
}

pub open spec fn has_prefix(s: Seq<char>, p: Seq<char>) -> bool {
    p.len() <= s.len() && s.take(p.len() as int) == p
}

/// A selection as stored: a line `layer <name>` per layer, in order, then
/// a line `target <coordinate>` per ad-hoc target.
pub open spec fn encode_entries(projects: Seq<Seq<char>>, targets: Seq<Seq<char>>) -> Seq<
    Seq<char>,
> {
    projects.map_values(|n: Seq<char>| layer_prefix() + n) + targets.map_values(
        |n: Seq<char>| target_prefix() + n,
    )
}

/// The selection that stored lines describe; empty lines are skipped, and a
/// malformed or repeated entry makes the whole `None`.
pub open spec fn decode_entries(lines: Seq<Seq<char>>) -> Option<(Seq<Seq<char>>, Seq<Seq<char>>)>
    decreases lines.len(),
{
    if lines.len() == 0 {
        Some((Seq::empty(), Seq::empty()))
    } else {
        match decode_entries(lines.drop_last()) {
            None => None,
            Some((p, t)) => {
                let l = lines.last();
                if l.len() == 0 {
                    Some((p, t))
                } else if has_prefix(l, layer_prefix()) {
                    let n = l.skip(layer_prefix().len() as int);
                    if p.contains(n) {
                        None
                    } else {
                        Some((p.push(n), t))
                    }
                } else if has_prefix(l, target_prefix()) {
                    let n = l.skip(target_prefix().len() as int);
                    if t.contains(n) {
                        None
                    } else {
                        Some((p, t.push(n)))
                    }
                } else {
                    None
                }
            },
        }
    }
}

/// The rest of `line` after `prefix`, if it begins with it.
fn strip_prefix(line: &str, prefix: &str) -> (r: Option<String>)
    ensures
        match r {
            Some(rest) => has_prefix(line@, prefix@) && rest@ == line@.skip(prefix@.len() as int),
            None => !has_prefix(line@, prefix@),
        },
{
    let n = line.unicode_len();
    let m = prefix.unicode_len();
    if m > n {
        return None;
    }
    let mut i: usize = 0;
    while i < m
        invariant
            m == prefix@.len(),
            n == line@.len(),
            m <= n,
            i <= m,
            forall|k: int| 0 <= k < i ==> line@[k] == prefix@[k],
        decreases m - i,
    {
        if line.get_char(i) != prefix.get_char(i) {
            assert(line@.take(m as int)[i as int] != prefix@[i as int]);
            return None;
        }
        i = i + 1;
    }
    assert(line@.take(m as int) =~= prefix@);
    assert(line@.subrange(m as int, n as int) =~= line@.skip(m as int));
    Some(line.substring_char(m, n).to_owned())
}

fn prefixed(prefix: &str, name: &String) -> (r: String)
    ensures
        r@ == prefix@ + name@,
{
    let mut r = prefix.to_owned();
    r.append(name.as_str());
    r
}

impl Selection {
    /// The stored form of this selection.
    pub fn to_entries(&self) -> (r: Vec<String>)
        ensures
            views(r@) == encode_entries(views(self.projects@), views(self.targets@)),
    {
        proof {
            reveal_strlit("layer ");
            reveal_strlit("target ");
        }
        let ghost ps = views(self.projects@);
        let ghost ts = views(self.targets@);
        let mut r: Vec<String> = Vec::new();
        let n = self.projects.len();
        let mut i: usize = 0;
        while i < n
            invariant
                n == self.projects@.len(),
                i <= n,
                ps == views(self.projects@),
                views(r@) == ps.take(i as int).map_values(|x: Seq<char>| layer_prefix() + x),
            decreases n - i,
        {
            proof {
                reveal_strlit("layer ");
                assert("layer "@ =~= layer_prefix());
            }
            let e = prefixed("layer ", &self.projects[i]);
            let ghost before = views(r@);
            r.push(e);
            assert(views(r@) =~= before.push(layer_prefix() + ps[i as int]));
            assert(ps.take(i + 1).map_values(|x: Seq<char>| layer_prefix() + x) =~= before.push(
                layer_prefix() + ps[i as int],
            ));
            i = i + 1;
        }
        assert(ps.take(n as int) =~= ps);
        let ghost head = views(r@);
        let m = self.targets.len();
        let mut j: usize = 0;
        assert(head =~= head + ts.take(0).map_values(|x: Seq<char>| target_prefix() + x));
        while j < m
            invariant
                m == self.targets@.len(),
                j <= m,
                ts == views(self.targets@),
                views(r@) == head + ts.take(j as int).map_values(|x: Seq<char>| target_prefix() + x),
            decreases m - j,
        {
            proof {
                reveal_strlit("target ");
                assert("target "@ =~= target_prefix());
            }
            let e = prefixed("target ", &self.targets[j]);
            let ghost before = views(r@);
            r.push(e);
            assert(views(r@) =~= before.push(target_prefix() + ts[j as int]));
            assert(head + ts.take(j + 1).map_values(|x: Seq<char>| target_prefix() + x) =~= before.push(
                target_prefix() + ts[j as int],
            ));
            j = j + 1;
        }
        assert(ts.take(m as int) =~= ts);
        r
    }

    /// Reads a selection from its stored lines.
    pub fn from_entries(lines: &Vec<String>) -> (r: Result<Selection, SelectionError>)
        ensures
            r is Ok <==> decode_entries(views(lines@)) is Some,
            r matches Ok(sel) ==> sel.wf() && Some(sel.view_pair()) == decode_entries(views(lines@)),
            r matches Err(e) ==> e is MalformedEntry || e is DuplicateEntry,
    {
        let ghost ls = views(lines@);
        let mut sel = Selection::new();
        let n = lines.len();
        let mut i: usize = 0;
        assert(ls.take(0) =~= Seq::<Seq<char>>::empty());
        assert(sel.view_pair().0 =~= Seq::<Seq<char>>::empty());
        assert(sel.view_pair().1 =~= Seq::<Seq<char>>::empty());
        while i < n
            invariant
                n == lines@.len(),
                i <= n,
                ls == views(lines@),
                sel.wf(),
                decode_entries(ls.take(i as int)) == Some(sel.view_pair()),
            decreases n - i,
        {
            proof {
                reveal_strlit("layer ");
                reveal_strlit("target ");
                assert("layer "@ =~= layer_prefix());
                assert("target "@ =~= target_prefix());
            }
            let line = &lines[i];
            assert(ls.take(i + 1).drop_last() =~= ls.take(i as int));
            assert(ls.take(i + 1).last() == line@);
            if line.as_str().unicode_len() != 0 {
                match strip_prefix(line.as_str(), "layer ") {
                    Some(name) => {
                        if !add_name(&mut sel.projects, &name) {
                            assert(decode_entries(ls.take(i + 1)) is None);
                            proof {
                                lemma_decode_prefix_none(ls, i as int + 1, n as int);
                            }
                            return Err(SelectionError::DuplicateEntry(line.clone()));
                        }
                    },
                    None => match strip_prefix(line.as_str(), "target ") {
                        Some(name) => {
                            if !add_name(&mut sel.targets, &name) {
                                assert(decode_entries(ls.take(i + 1)) is None);
                                proof {
                                    lemma_decode_prefix_none(ls, i as int + 1, n as int);
                                }
                                return Err(SelectionError::DuplicateEntry(line.clone()));
                            }
                        },
                        None => {
                            assert(decode_entries(ls.take(i + 1)) is None);
                            proof {
                                lemma_decode_prefix_none(ls, i as int + 1, n as int);
                            }
                            return Err(SelectionError::MalformedEntry(line.clone()));
                        },
                    },
                }
            }
            i = i + 1;
        }
        assert(ls.take(n as int) =~= ls);
        Ok(sel)
    }
}

/// Once a prefix of the lines fails to decode, every longer prefix fails.
proof fn lemma_decode_prefix_none(ls: Seq<Seq<char>>, i: int, n: int)
    requires
        0 <= i <= n <= ls.len(),
        decode_entries(ls.take(i)) is None,
    ensures
        decode_entries(ls.take(n)) is None,
        n == ls.len() ==> decode_entries(ls) is None,
    decreases n - i,
{
    assert(n == ls.len() ==> ls.take(n) =~= ls);
    if i < n {
        assert(ls.take(i + 1).drop_last() =~= ls.take(i));
        lemma_decode_prefix_none(ls, i + 1, n);
    }
}

} // verus!
