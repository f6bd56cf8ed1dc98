use vstd::prelude::*;

verus! {

/// Whether `p` is a prefix of `s`.
pub open spec fn is_prefix(p: Seq<char>, s: Seq<char>) -> bool {
    p.len() <= s.len() && s.take(p.len() as int) == p
}

/// The entries of `rs` that start with `p`, in their order.
pub open spec fn filtered(rs: Seq<Seq<char>>, p: Seq<char>) -> Seq<Seq<char>>
    decreases rs.len(),
{
    if rs.len() == 0 {
        Seq::empty()
    } else {
        let rest = filtered(rs.drop_first(), p);
        if is_prefix(p, rs[0]) {
            seq![rs[0]] + rest
        } else {
            rest
        }
    }
}

/// The index of the first entry of `rs` equal to `x`; the length of `rs`
/// when there is none.
pub open spec fn first_index(rs: Seq<Seq<char>>, x: Seq<char>) -> int
    decreases rs.len(),
{
    if rs.len() == 0 {
        0
    } else if rs[0] == x {
        0
    } else {
        1 + first_index(rs.drop_first(), x)
    }
}

/// A record as shown in the list: `last, first`.
pub open spec fn full_name(first: Seq<char>, last: Seq<char>) -> Seq<char> {
    last + ", "@ + first
}

/// What each string of `v` holds.
pub open spec fn views(v: Seq<String>) -> Seq<Seq<char>> {
    v.map_values(|s: String| s@)
}

/// The state of the list, as values.
pub struct CrudModel {
    pub filter_prefix: Seq<char>,
    pub selected_name: Option<usize>,
    pub name: Seq<char>,
    pub sur_name: Seq<char>,
    pub names: Seq<Seq<char>>,
    pub display_names: Seq<Seq<char>>,
}

/// An event of the list, as values.
pub enum Event {
    FilterPrefixChanged(Seq<char>),
    SelectedName(usize),
    NameChanged(Seq<char>),
    SurnameChanged(Seq<char>),
    CreatePressed,
    UpdatePressed,
    DeletePressed,
}

/// Whether a row of the shown list is selected.
pub open spec fn has_selection(c: CrudModel) -> bool {
    c.selected_name is Some && c.selected_name->0 < c.display_names.len()
}

/// The record of the selected row.
pub open spec fn selected_record(c: CrudModel) -> Seq<char> {
    c.display_names[c.selected_name->0 as int]
}

/// The state after event `e`, before the shown list is recomputed.
pub open spec fn apply(c: CrudModel, e: Event) -> CrudModel {
    match e {
        Event::FilterPrefixChanged(p) => CrudModel { filter_prefix: p, selected_name: None, ..c },
        Event::SelectedName(i) => CrudModel { selected_name: Some(i), ..c },
        Event::NameChanged(n) => CrudModel { name: n, ..c },
        Event::SurnameChanged(n) => CrudModel { sur_name: n, ..c },
        Event::CreatePressed => CrudModel {
            names: if c.name.len() > 0 && c.sur_name.len() > 0 {
                c.names.push(full_name(c.name, c.sur_name))
            } else {
                c.names
            },
            selected_name: None,
            ..c
        },
        Event::UpdatePressed => if c.name.len() > 0 && c.sur_name.len() > 0 && has_selection(c) {
            CrudModel {
                names: c.names.update(
                    first_index(c.names, selected_record(c)),
                    full_name(c.name, c.sur_name),
                ),
                ..c
            }
        } else {
            c
        },
        Event::DeletePressed => CrudModel {
            names: if has_selection(c) {
                c.names.remove(first_index(c.names, selected_record(c)))
            } else {
                c.names
            },
            selected_name: None,
            ..c
        },
    }
}

/// The state after event `e`: the event applied, then the shown list
/// recomputed from the records and the filter.
pub open spec fn step(c: CrudModel, e: Event) -> CrudModel {
    let a = apply(c, e);
    CrudModel { display_names: filtered(a.names, a.filter_prefix), ..a }
}

/// Filtering a concatenation filters each part.
pub proof fn lemma_filtered_add(a: Seq<Seq<char>>, b: Seq<Seq<char>>, p: Seq<char>)
    ensures
        filtered(a + b, p) == filtered(a, p) + filtered(b, p),
    decreases a.len(),
{
    if a.len() == 0 {
        assert(a + b =~= b);
        assert(filtered(a, p) + filtered(b, p) =~= filtered(b, p));
    } else {
        assert((a + b).drop_first() =~= a.drop_first() + b);
        lemma_filtered_add(a.drop_first(), b, p);
        if is_prefix(p, a[0]) {
            assert(seq![a[0]] + (filtered(a.drop_first(), p) + filtered(b, p)) =~= (seq![a[0]]
                + filtered(a.drop_first(), p)) + filtered(b, p));
        }
    }
}

proof fn lemma_filtered_single(x: Seq<char>, p: Seq<char>)
    ensures
        filtered(seq![x], p) == if is_prefix(p, x) {
            seq![x]
        } else {
            Seq::<Seq<char>>::empty()
        },
{
    let one = seq![x];
    assert(one.drop_first() =~= Seq::<Seq<char>>::empty());
    assert(filtered(one.drop_first(), p) == Seq::<Seq<char>>::empty());
    assert(seq![x] + Seq::<Seq<char>>::empty() =~= seq![x]);
}

/// `first_index` names the first entry equal to `x`, if any.
pub proof fn lemma_first_index(rs: Seq<Seq<char>>, x: Seq<char>)
    ensures
        0 <= first_index(rs, x) <= rs.len(),
        first_index(rs, x) < rs.len() ==> rs[first_index(rs, x)] == x,
        forall|k: int| 0 <= k < first_index(rs, x) ==> rs[k] != x,
        (exists|k: int| 0 <= k < rs.len() && rs[k] == x) ==> first_index(rs, x) < rs.len(),
    decreases rs.len(),
{
    if rs.len() > 0 && rs[0] != x {
        lemma_first_index(rs.drop_first(), x);
        assert forall|k: int| 0 <= k < first_index(rs, x) implies rs[k] != x by {
            if k > 0 {
                assert(rs[k] == rs.drop_first()[k - 1]);
            }
        }
        if exists|k: int| 0 <= k < rs.len() && rs[k] == x {
            let k = choose|k: int| 0 <= k < rs.len() && rs[k] == x;
            assert(rs.drop_first()[k - 1] == x);
        }
    }
}

/// Every shown entry starts with the filter and stands among the records.
pub proof fn lemma_filtered_member(rs: Seq<Seq<char>>, p: Seq<char>, i: int)
    requires
        0 <= i < filtered(rs, p).len(),
    ensures
        is_prefix(p, filtered(rs, p)[i]),
        first_index(rs, filtered(rs, p)[i]) < rs.len(),
    decreases rs.len(),
{
    let x = filtered(rs, p)[i];
    if rs.len() > 0 {
        if is_prefix(p, rs[0]) && i == 0 {
        } else {
            let i2 = if is_prefix(p, rs[0]) {
                i - 1
            } else {
                i
            };
            assert(filtered(rs.drop_first(), p)[i2] == x);
            lemma_filtered_member(rs.drop_first(), p, i2);
        }
    }
}

/// Removing the first record equal to a shown entry `x` removes the first
/// shown entry equal to `x`.
pub proof fn lemma_filtered_remove(rs: Seq<Seq<char>>, p: Seq<char>, x: Seq<char>)
    requires
        first_index(rs, x) < rs.len(),
        is_prefix(p, x),
    ensures
        first_index(filtered(rs, p), x) < filtered(rs, p).len(),
        filtered(rs.remove(first_index(rs, x)), p) == filtered(rs, p).remove(
            first_index(filtered(rs, p), x),
        ),
    decreases rs.len(),
{
    let rest = rs.drop_first();
    if rs[0] == x {
        assert(rs.remove(0) =~= rest);
        assert(filtered(rs, p) == seq![x] + filtered(rest, p));
        assert((seq![x] + filtered(rest, p)).remove(0) =~= filtered(rest, p));
    } else {
        assert(first_index(rs, x) == 1 + first_index(rest, x));
        lemma_first_index(rest, x);
        lemma_filtered_remove(rest, p, x);
        let j = first_index(rest, x);
        assert(rs.remove(j + 1) =~= seq![rs[0]] + rest.remove(j));
        assert((seq![rs[0]] + rest.remove(j)).drop_first() =~= rest.remove(j));
        assert((seq![rs[0]] + rest.remove(j))[0] == rs[0]);
        let fr = filtered(rest, p);
        let k = first_index(fr, x);
        lemma_first_index(fr, x);
        if is_prefix(p, rs[0]) {
            let f = seq![rs[0]] + fr;
            assert(filtered(rs, p) == f);
            assert(f.drop_first() =~= fr);
            assert(f[0] != x);
            assert(first_index(f, x) == 1 + k);
            assert(f.remove(k + 1) =~= seq![rs[0]] + fr.remove(k));
        } else {
            assert(filtered(rs, p) == fr);
        }
    }
}

/// Setting the same filter twice leaves the state as the first time did.
pub proof fn lemma_filter_twice(c: CrudModel, p: Seq<char>)
    ensures
        step(step(c, Event::FilterPrefixChanged(p)), Event::FilterPrefixChanged(p)) == step(
            c,
            Event::FilterPrefixChanged(p),
        ),
{
}

/// Deleting the selected row removes its record from the records and from
/// the shown list (the first entry of each equal to it), and clears the
/// selection.
pub proof fn lemma_delete_selected(c: CrudModel)
    requires
        model_wf(c),
        has_selection(c),
    ensures
        ({
            let d = step(c, Event::DeletePressed);
            let x = selected_record(c);
            &&& d.names == c.names.remove(first_index(c.names, x))
            &&& d.names.len() == c.names.len() - 1
            &&& d.display_names == c.display_names.remove(first_index(c.display_names, x))
            &&& d.display_names.len() == c.display_names.len() - 1
            &&& d.selected_name is None
        }),
{
    let x = selected_record(c);
    lemma_filtered_member(c.names, c.filter_prefix, c.selected_name->0 as int);
    lemma_filtered_remove(c.names, c.filter_prefix, x);
    lemma_first_index(c.names, x);
    lemma_first_index(c.display_names, x);
}

/// Every event leaves the shown list equal to the records that start with
/// the filter.
pub proof fn lemma_step_wf(c: CrudModel, e: Event)
    ensures
        model_wf(step(c, e)),
{
}

/// Whether `s` starts with `p`, compared character by character.
pub fn has_prefix(s: &str, p: &str) -> (r: bool)
    ensures
        r == is_prefix(p@, s@),
{
    let n = s.unicode_len();
    let m = p.unicode_len();
    if m > n {
        return false;
    }
    let mut k: usize = 0;
    while k < m
        invariant
            m <= n,
            n == s@.len(),
            m == p@.len(),
            k <= m,
            s@.take(k as int) == p@.take(k as int),
        decreases m - k,
    {
        if s.get_char(k) != p.get_char(k) {
            assert(s@.take(m as int)[k as int] != p@[k as int]);
            return false;
        }
        assert(s@.take(k + 1) =~= s@.take(k as int).push(s@[k as int]));
        assert(p@.take(k + 1) =~= p@.take(k as int).push(p@[k as int]));
        k = k + 1;
    }
    assert(p@.take(m as int) =~= p@);
    true
}

/// The entries of `names` that start with `prefix`, in their order.
pub fn filter_names(names: &Vec<String>, prefix: &String) -> (r: Vec<String>)
    ensures
        views(r@) == filtered(views(names@), prefix@),
{
    let mut r: Vec<String> = Vec::new();
    let mut i: usize = 0;
    assert(views(names@).take(0) =~= Seq::<Seq<char>>::empty());
    assert(views(r@) =~= Seq::<Seq<char>>::empty());
    while i < names.len()
        invariant
            i <= names@.len(),
            views(r@) == filtered(views(names@).take(i as int), prefix@),
        decreases names@.len() - i,
    {
        let ghost all = views(names@);
        let ghost next = seq![all[i as int]];
        assert(all.take(i + 1) =~= all.take(i as int) + next);
        proof {
            lemma_filtered_add(all.take(i as int), next, prefix@);
        }
        proof {
            lemma_filtered_single(all[i as int], prefix@);
        }
        if has_prefix(names[i].as_str(), prefix.as_str()) {
            let ghost before = r@;
            r.push(names[i].clone());
            assert(views(r@) =~= views(before) + next);
        } else {
            assert(views(r@) =~= views(r@) + filtered(next, prefix@));
        }
        i = i + 1;
    }
    assert(views(names@).take(i as int) =~= views(names@));
    r
}

/// The index of the first entry of `names` equal to `x`.
fn find_index(names: &Vec<String>, x: &String) -> (j: usize)
    requires
        first_index(views(names@), x@) < names@.len(),
    ensures
        j == first_index(views(names@), x@),
{
    let ghost fi = first_index(views(names@), x@);
    proof {
        lemma_first_index(views(names@), x@);
    }
    let mut j: usize = 0;
    while j < names.len()
        invariant
            fi == first_index(views(names@), x@),
            fi < names@.len(),
            views(names@)[fi] == x@,
            forall|k: int| 0 <= k < fi ==> views(names@)[k] != x@,
            j <= fi,
        decreases names@.len() - j,
    {
        if names[j] == *x {
            assert(views(names@)[j as int] == x@);
            return j;
        }
        assert(views(names@)[j as int] != x@);
        j = j + 1;
    }
    j
}

/// Writes a record as `last, first`.
pub fn make_full_name(first: &String, last: &String) -> (r: String)
    ensures
        r@ == full_name(first@, last@),
{
    let mut r = last.clone();
    r.append(", ");
    r.append(first.as_str());
    r
}

/// Events of the list.
#[derive(Debug, Clone)]
pub enum Message {
    FilterPrefixChanged(String),
    SelectedName(usize),
    NameChanged(String),
    SurnameChanged(String),
    CreatePressed,
    UpdatePressed,
    DeletePressed,
}

impl View for Message {
    type V = Event;

    open spec fn view(&self) -> Event {
        match self {
            Message::FilterPrefixChanged(p) => Event::FilterPrefixChanged(p@),
            Message::SelectedName(i) => Event::SelectedName(*i),
            Message::NameChanged(n) => Event::NameChanged(n@),
            Message::SurnameChanged(n) => Event::SurnameChanged(n@),
            Message::CreatePressed => Event::CreatePressed,
            Message::UpdatePressed => Event::UpdatePressed,
            Message::DeletePressed => Event::DeletePressed,
        }
    }
}

/// A list of names, `last, first`, that can be filtered by a prefix, and
/// whose entries can be created, updated and deleted.
///
/// `display_names` holds the records that start with `filter_prefix`, in
/// order; `selected_name` indexes into it.
#[derive(Debug, Clone)]
pub struct Crud {
    pub filter_prefix: String,
    pub selected_name: Option<usize>,
    pub name: String,
    pub sur_name: String,
    pub names: Vec<String>,
    pub display_names: Vec<String>,
}

impl View for Crud {
    type V = CrudModel;

    open spec fn view(&self) -> CrudModel {
        CrudModel {
            filter_prefix: self.filter_prefix@,
            selected_name: self.selected_name,
            name: self.name@,
            sur_name: self.sur_name@,
            names: views(self.names@),
            display_names: views(self.display_names@),
        }
    }
}

/// The shown list is the records that start with the filter.
pub open spec fn model_wf(c: CrudModel) -> bool {
    c.display_names == filtered(c.names, c.filter_prefix)
}

impl Crud {
    /// The shown list is the records that start with the filter.
    pub open spec fn wf(&self) -> bool {
        model_wf(self@)
    }

    /// An empty list with an empty filter.
    pub fn new() -> (r: Crud)
        ensures
            r.wf(),
            r@.filter_prefix.len() == 0,
            r@.selected_name is None,
            r@.name.len() == 0,
            r@.sur_name.len() == 0,
            r@.names.len() == 0,
            r@.display_names.len() == 0,
    {
        let r = Crud {
            filter_prefix: String::new(),
            selected_name: None,
            name: String::new(),
            sur_name: String::new(),
            names: Vec::new(),
            display_names: Vec::new(),
        };
        assert(r@.names =~= Seq::<Seq<char>>::empty());
        assert(r@.display_names =~= Seq::<Seq<char>>::empty());
        r
    }

    /// The title of the window.
    pub fn title(&self) -> (r: String)
        ensures
            r@ == "CRUD"@,
    {
        String::from_str("CRUD")
    }

    /// Applies one event, then recomputes the shown list.
    ///
    /// `CreatePressed` adds `last, first` when both names are given.
    /// `UpdatePressed` and `DeletePressed` act on the first record equal to
    /// the selected row, and do nothing when no row of the shown list is
    /// selected; `UpdatePressed` also needs both names.
    pub fn update(&mut self, message: Message)
        requires
            old(self).wf(),
        ensures
            final(self).wf(),
            final(self)@ == step(old(self)@, message@),
    {
        let ghost c = self@;
        match message {
            Message::FilterPrefixChanged(prefix) => {
                self.filter_prefix = prefix;
                self.selected_name = None;
            },
            Message::SelectedName(index) => {
                self.selected_name = Some(index);
            },
            Message::NameChanged(name) => {
                self.name = name;
            },
            Message::SurnameChanged(name) => {
                self.sur_name = name;
            },
            Message::CreatePressed => {
                if !self.sur_name.as_str().is_empty() && !self.name.as_str().is_empty() {
                    let full = make_full_name(&self.name, &self.sur_name);
                    self.names.push(full);
                    assert(views(self.names@) =~= c.names.push(full_name(c.name, c.sur_name)));
                }
                self.selected_name = None;
            },
            Message::UpdatePressed => {
                if !self.sur_name.as_str().is_empty() && !self.name.as_str().is_empty() {
                    if let Some(index) = self.selected_name {
                        if index < self.display_names.len() {
                            let chosen = self.display_names[index].clone();
                            proof {
                                lemma_filtered_member(c.names, c.filter_prefix, index as int);
                            }
                            let j = find_index(&self.names, &chosen);
                            let full = make_full_name(&self.name, &self.sur_name);
                            self.names.set(j, full);
                            assert(views(self.names@) =~= c.names.update(
                                j as int,
                                full_name(c.name, c.sur_name),
                            ));
                        }
                    }
                }
            },
            Message::DeletePressed => {
                if let Some(index) = self.selected_name {
                    if index < self.display_names.len() {
                        let chosen = self.display_names[index].clone();
                        proof {
                            lemma_filtered_member(c.names, c.filter_prefix, index as int);
                        }
                        let j = find_index(&self.names, &chosen);
                        self.names.remove(j);
                        assert(views(self.names@) =~= c.names.remove(j as int));
                    }
                }
                self.selected_name = None;
            },
        }
        self.display_names = filter_names(&self.names, &self.filter_prefix);
    }
}

} // verus!
