use vstd::prelude::*;
use crate::columns::titles_view;
use crate::values::Row;

verus! {

/// The rows of one group of an engine result.
#[derive(Debug)]
pub struct Group {
    pub rows: Vec<Row>,
}

/// The selected groups of an engine result, with the titles of its columns and
/// the titles that took part in evaluation but must not be shown.
#[derive(Debug)]
pub struct SelectedGroups {
    pub titles: Vec<String>,
    pub groups: Vec<Group>,
    pub hidden: Vec<String>,
}

/// What the engine produced for one statement.
#[derive(Debug)]
pub enum RawResult {
    /// A statement without rows was carried out.
    Acknowledged,
    Selected(SelectedGroups),
}

/// The flat, hidden-free result that a client sees.
#[derive(Debug)]
pub struct ProjectedResult {
    pub titles: Vec<String>,
    pub rows: Vec<Row>,
}

/// Outcome of a projection.
#[derive(Debug)]
pub enum Projection {
    /// The engine acknowledged a statement without rows.
    Acknowledged,
    Rows(ProjectedResult),
}

/// A row whose number of values differs from the number of titles.
#[derive(Clone, Copy, Debug, PartialEq, Eq, Structural)]
pub struct InconsistentRow {
    pub row: usize,
}

/// All rows of `groups`, group after group, each group's rows in order.
pub open spec fn flatten(groups: Seq<Group>) -> Seq<Row>
    decreases groups.len(),
{
    if groups.len() == 0 {
        Seq::empty()
    } else {
        flatten(groups.take(groups.len() - 1)) + groups[groups.len() - 1].rows@
    }
}

/// `true` at the positions whose title is not hidden.
pub open spec fn visible_mask(titles: Seq<Seq<char>>, hidden: Seq<Seq<char>>) -> Seq<bool> {
    titles.map_values(|t: Seq<char>| !hidden.contains(t))
}

/// The elements of `xs` at the positions where `mask` holds, in order.
pub open spec fn keep<A>(mask: Seq<bool>, xs: Seq<A>) -> Seq<A>
    decreases xs.len(),
{
    if xs.len() == 0 {
        Seq::empty()
    } else {
        let n = xs.len() - 1;
        if n < mask.len() && mask[n] {
            keep(mask, xs.take(n)).push(xs[n])
        } else {
            keep(mask, xs.take(n))
        }
    }
}

impl SelectedGroups {
    pub open spec fn mask(&self) -> Seq<bool> {
        visible_mask(titles_view(self.titles@), titles_view(self.hidden@))
    }

    /// Every row holds one value per title.
    pub open spec fn consistent(&self) -> bool {
        forall|k: int|
            0 <= k < flatten(self.groups@).len() ==> #[trigger] flatten(self.groups@)[k].values@.len()
                == self.titles@.len()
    }
}

/// `p` is the projection of `sel`: visible titles, and the visible values of
/// the flattened rows.
pub open spec fn projects_to(sel: SelectedGroups, p: ProjectedResult) -> bool {
    &&& titles_view(p.titles@) == keep(sel.mask(), titles_view(sel.titles@))
    &&& p.rows@.len() == flatten(sel.groups@).len()
    &&& forall|k: int|
        0 <= k < p.rows@.len() ==> #[trigger] p.rows@[k].values@ == keep(
            sel.mask(),
            flatten(sel.groups@)[k].values@,
        )
}

proof fn lemma_keep_step<A>(mask: Seq<bool>, xs: Seq<A>, i: int)
    requires
        0 <= i < xs.len(),
        i < mask.len(),
    ensures
        keep(mask, xs.take(i + 1)) == if mask[i] {
            keep(mask, xs.take(i)).push(xs[i])
        } else {
            keep(mask, xs.take(i))
        },
{
    assert(xs.take(i + 1).take(i) =~= xs.take(i));
}

proof fn lemma_flatten_step(groups: Seq<Group>, i: int)
    requires
        0 <= i < groups.len(),
    ensures
        flatten(groups.take(i + 1)) == flatten(groups.take(i)) + groups[i].rows@,
{
    assert(groups.take(i + 1).take(i) =~= groups.take(i));
}

/// Whether `t` is one of `hidden`.
fn is_hidden(hidden: &Vec<String>, t: &String) -> (r: bool)
    ensures
        r == titles_view(hidden@).contains(t@),
{
    let mut i: usize = 0;
    while i < hidden.len()
        invariant
            i <= hidden@.len(),
            forall|k: int| 0 <= k < i ==> hidden@[k]@ != t@,
        decreases hidden@.len() - i,
    {
        if hidden[i] == *t {
            assert(titles_view(hidden@)[i as int] == t@);
            return true;
        }
        i = i + 1;
    }
    proof {
        if titles_view(hidden@).contains(t@) {
            let k = choose|k: int| 0 <= k < titles_view(hidden@).len() && titles_view(hidden@)[k] == t@;
            assert(hidden@[k]@ == t@);
        }
    }
    false
}

/// The visibility mask of `sel`'s titles.
fn mask_of(sel: &SelectedGroups) -> (r: Vec<bool>)
    ensures
        r@ == sel.mask(),
{
    let mut mask: Vec<bool> = Vec::new();
    let mut i: usize = 0;
    while i < sel.titles.len()
        invariant
            i <= sel.titles@.len(),
            mask@ =~= sel.mask().take(i as int),
        decreases sel.titles@.len() - i,
    {
        let h = is_hidden(&sel.hidden, &sel.titles[i]);
        mask.push(!h);
        i = i + 1;
    }
    mask
}

/// The titles at visible positions.
fn visible_titles(titles: &Vec<String>, mask: &Vec<bool>) -> (r: Vec<String>)
    requires
        mask@.len() == titles@.len(),
    ensures
        titles_view(r@) == keep(mask@, titles_view(titles@)),
{
    let mut out: Vec<String> = Vec::new();
    let mut i: usize = 0;
    while i < titles.len()
        invariant
            i <= titles@.len(),
            mask@.len() == titles@.len(),
            titles_view(out@) == keep(mask@, titles_view(titles@).take(i as int)),
        decreases titles@.len() - i,
    {
        proof {
            lemma_keep_step(mask@, titles_view(titles@), i as int);
        }
        if mask[i] {
            let ghost before = out@;
            out.push(titles[i].clone());
            assert(titles_view(out@) =~= titles_view(before).push(titles@[i as int]@));
        }
        i = i + 1;
    }
    assert(titles_view(titles@).take(i as int) =~= titles_view(titles@));
    out
}

/// The values of `row` at visible positions.
fn visible_values(row: &Row, mask: &Vec<bool>) -> (r: Row)
    requires
        mask@.len() == row.values@.len(),
    ensures
        r.values@ == keep(mask@, row.values@),
{
    let mut values = Vec::new();
    let mut i: usize = 0;
    while i < row.values.len()
        invariant
            i <= row.values@.len(),
            mask@.len() == row.values@.len(),
            values@ == keep(mask@, row.values@.take(i as int)),
        decreases row.values@.len() - i,
    {
        proof {
            lemma_keep_step(mask@, row.values@, i as int);
        }
        if mask[i] {
            values.push(row.values[i].duplicate());
        }
        i = i + 1;
    }
    assert(row.values@.take(i as int) =~= row.values@);
    Row { values }
}

/// Projects an engine result: drops hidden columns, keeping the order of the
/// others, and collapses all groups into one sequence of rows.
pub fn project(raw: &RawResult) -> (r: Result<Projection, InconsistentRow>)
    ensures
        raw is Acknowledged ==> r matches Ok(Projection::Acknowledged),
        raw is Selected && raw->Selected_0.consistent() ==> (r matches Ok(
            Projection::Rows(p),
        ) && projects_to(raw->Selected_0, p)),
        raw is Selected && !raw->Selected_0.consistent() ==> r is Err,
{
    match raw {
        RawResult::Acknowledged => Ok(Projection::Acknowledged),
        RawResult::Selected(sel) => {
            let mask = mask_of(sel);
            let titles = visible_titles(&sel.titles, &mask);
            let mut rows: Vec<Row> = Vec::new();
            let mut g: usize = 0;
            while g < sel.groups.len()
                invariant
                    g <= sel.groups@.len(),
                    raw is Selected && raw->Selected_0 == *sel,
                    mask@ == sel.mask(),
                    mask@.len() == sel.titles@.len(),
                    rows@.len() == flatten(sel.groups@.take(g as int)).len(),
                    forall|k: int|
                        0 <= k < rows@.len() ==> #[trigger] rows@[k].values@ == keep(
                            mask@,
                            flatten(sel.groups@.take(g as int))[k].values@,
                        ),
                    forall|k: int|
                        0 <= k < rows@.len() ==> flatten(sel.groups@.take(g as int))[k].values@.len()
                            == sel.titles@.len(),
                decreases sel.groups@.len() - g,
            {
                proof {
                    lemma_flatten_step(sel.groups@, g as int);
                }
                let group = &sel.groups[g];
                let ghost done = flatten(sel.groups@.take(g as int));
                let mut j: usize = 0;
                while j < group.rows.len()
                    invariant
                        j <= group.rows@.len(),
                        raw is Selected && raw->Selected_0 == *sel,
                        g < sel.groups@.len(),
                        group == sel.groups@[g as int],
                        flatten(sel.groups@.take(g + 1)) == done + group.rows@,
                        mask@ == sel.mask(),
                        mask@.len() == sel.titles@.len(),
                        done == flatten(sel.groups@.take(g as int)),
                        rows@.len() == done.len() + j,
                        forall|k: int|
                            0 <= k < rows@.len() ==> #[trigger] rows@[k].values@ == keep(
                                mask@,
                                (done + group.rows@)[k].values@,
                            ),
                        forall|k: int|
                            0 <= k < rows@.len() ==> (done + group.rows@)[k].values@.len()
                                == sel.titles@.len(),
                    decreases group.rows@.len() - j,
                {
                    let row = &group.rows[j];
                    if row.values.len() != sel.titles.len() {
                        proof {
                            let all = flatten(sel.groups@);
                            lemma_flatten_prefix(sel.groups@, g as int + 1);
                            assert(all[done.len() + j] == (done + group.rows@)[done.len() + j]);
                            assert(all[done.len() + j].values@.len() != sel.titles@.len());
                            assert(!sel.consistent());
                        }
                        return Err(InconsistentRow { row: j });
                    }
                    rows.push(visible_values(row, &mask));
                    j = j + 1;
                }
                g = g + 1;
            }
            assert(sel.groups@.take(g as int) =~= sel.groups@);
            Ok(Projection::Rows(ProjectedResult { titles, rows }))
        },
    }
}

/// The rows of the first `n` groups open the flattened sequence.
proof fn lemma_flatten_prefix(groups: Seq<Group>, n: int)
    requires
        0 <= n <= groups.len(),
    ensures
        flatten(groups.take(n)).len() <= flatten(groups).len(),
        forall|k: int|
            0 <= k < flatten(groups.take(n)).len() ==> #[trigger] flatten(groups.take(n))[k]
                == flatten(groups)[k],
    decreases groups.len() - n,
{
    if n < groups.len() {
        lemma_flatten_prefix(groups, n + 1);
        lemma_flatten_step(groups, n);
        assert forall|k: int| 0 <= k < flatten(groups.take(n)).len() implies #[trigger] flatten(
            groups.take(n),
        )[k] == flatten(groups)[k] by {
            assert(flatten(groups.take(n + 1))[k] == flatten(groups.take(n))[k]);
        }
    } else {
        assert(groups.take(n) =~= groups);
    }
}

/// Where the mask holds at every position, `keep` returns its input.
pub proof fn lemma_keep_all<A>(mask: Seq<bool>, xs: Seq<A>)
    requires
        xs.len() <= mask.len(),
        forall|i: int| 0 <= i < mask.len() ==> mask[i],
    ensures
        keep(mask, xs) == xs,
    decreases xs.len(),
{
    if xs.len() > 0 {
        lemma_keep_all(mask, xs.take(xs.len() - 1));
        assert(xs.take(xs.len() - 1).push(xs[xs.len() - 1]) =~= xs);
    }
}

/// The length of `keep` depends on the mask and the input's length only.
pub proof fn lemma_keep_len<A, B>(mask: Seq<bool>, xs: Seq<A>, ys: Seq<B>)
    requires
        xs.len() == ys.len(),
    ensures
        keep(mask, xs).len() == keep(mask, ys).len(),
    decreases xs.len(),
{
    if xs.len() > 0 {
        lemma_keep_len(mask, xs.take(xs.len() - 1), ys.take(ys.len() - 1));
    }
}

/// Every element that `keep` returns stands in the input at a position where the mask holds.
pub proof fn lemma_keep_origin<A>(mask: Seq<bool>, xs: Seq<A>, j: int)
    requires
        0 <= j < keep(mask, xs).len(),
    ensures
        exists|i: int| 0 <= i < xs.len() && i < mask.len() && mask[i] && xs[i] == keep(mask, xs)[j],
    decreases xs.len(),
{
    let n = xs.len() - 1;
    let prefix = keep(mask, xs.take(n));
    if j < prefix.len() {
        lemma_keep_origin(mask, xs.take(n), j);
        let i = choose|i: int|
            0 <= i < xs.take(n).len() && i < mask.len() && mask[i] && xs.take(n)[i] == prefix[j];
        assert(xs[i] == keep(mask, xs)[j]);
    } else {
        assert(xs[n] == keep(mask, xs)[j]);
    }
}

/// Over distinct titles, `keep` with the visibility mask drops exactly the hidden ones.
pub proof fn lemma_visible_count(titles: Seq<Seq<char>>, hidden: Seq<Seq<char>>, n: int)
    requires
        0 <= n <= titles.len(),
        titles.no_duplicates(),
    ensures
        keep(visible_mask(titles, hidden), titles.take(n)).len() == n - titles.take(n).to_set().intersect(
            hidden.to_set(),
        ).len(),
    decreases n,
{
    broadcast use vstd::seq_lib::seq_to_set_is_finite;

    let mask = visible_mask(titles, hidden);
    if n == 0 {
        assert(titles.take(0).to_set().intersect(hidden.to_set()) =~= Set::empty());
    } else {
        let m = n - 1;
        lemma_visible_count(titles, hidden, m);
        lemma_keep_step(mask, titles, m);
        let before = titles.take(m).to_set().intersect(hidden.to_set());
        let after = titles.take(n).to_set().intersect(hidden.to_set());
        let t = titles[m];
        assert(titles.take(n) =~= titles.take(m).push(t));
        titles.take(m).lemma_push_to_set_commute(t);
        assert(!titles.take(m).contains(t));
        if hidden.contains(t) {
            assert(after =~= before.insert(t));
            assert(!before.contains(t));
        } else {
            assert(after =~= before);
        }
    }
}

/// Projecting a result of one group with no hidden column returns its titles and rows unchanged.
pub proof fn lemma_projection_idempotent(sel: SelectedGroups, p: ProjectedResult)
    requires
        sel.groups@.len() == 1,
        forall|i: int|
            0 <= i < sel.titles@.len() ==> !titles_view(sel.hidden@).contains(#[trigger] sel.titles@[i]@),
        sel.consistent(),
        projects_to(sel, p),
    ensures
        titles_view(p.titles@) == titles_view(sel.titles@),
        p.rows@.len() == sel.groups@[0].rows@.len(),
        forall|k: int| 0 <= k < p.rows@.len() ==> #[trigger] p.rows@[k].values@ == sel.groups@[0].rows@[k].values@,
{
    let mask = sel.mask();
    assert forall|i: int| 0 <= i < mask.len() implies mask[i] by {
        assert(titles_view(sel.titles@)[i] == sel.titles@[i]@);
    }
    lemma_keep_all(mask, titles_view(sel.titles@));
    assert(sel.groups@.take(0) =~= Seq::<Group>::empty());
    assert(flatten(sel.groups@) =~= sel.groups@[0].rows@) by {
        lemma_flatten_step(sel.groups@, 0);
        assert(sel.groups@.take(1) =~= sel.groups@);
        assert(Seq::<Row>::empty() + sel.groups@[0].rows@ =~= sel.groups@[0].rows@);
    }
    assert forall|k: int| 0 <= k < p.rows@.len() implies #[trigger] p.rows@[k].values@
        == sel.groups@[0].rows@[k].values@ by {
        lemma_keep_all(mask, flatten(sel.groups@)[k].values@);
    }
}

/// Hidden columns leave the titles and every row: over distinct titles the number
/// of visible titles is the number of titles less the number of hidden ones among
/// them, no visible title is hidden, and each row has one value per visible title.
pub proof fn lemma_hidden_columns_removed(sel: SelectedGroups, p: ProjectedResult)
    requires
        titles_view(sel.titles@).no_duplicates(),
        sel.consistent(),
        projects_to(sel, p),
    ensures
        p.titles@.len() == sel.titles@.len() - titles_view(sel.titles@).to_set().intersect(
            titles_view(sel.hidden@).to_set(),
        ).len(),
        forall|i: int|
            0 <= i < p.titles@.len() ==> !titles_view(sel.hidden@).contains(#[trigger] p.titles@[i]@),
        forall|k: int| 0 <= k < p.rows@.len() ==> #[trigger] p.rows@[k].values@.len() == p.titles@.len(),
{
    let tv = titles_view(sel.titles@);
    let hv = titles_view(sel.hidden@);
    let mask = sel.mask();
    lemma_visible_count(tv, hv, tv.len() as int);
    assert(tv.take(tv.len() as int) =~= tv);
    assert(titles_view(p.titles@).len() == p.titles@.len());
    assert forall|i: int| 0 <= i < p.titles@.len() implies !hv.contains(#[trigger] p.titles@[i]@) by {
        assert(titles_view(p.titles@)[i] == p.titles@[i]@);
        lemma_keep_origin(mask, tv, i);
    }
    assert forall|k: int| 0 <= k < p.rows@.len() implies #[trigger] p.rows@[k].values@.len()
        == p.titles@.len() by {
        lemma_keep_len(mask, flatten(sel.groups@)[k].values@, tv);
    }
}

/// The rows of two groups are flattened to the first group's rows followed by the second's.
pub proof fn lemma_flatten_two(g1: Group, g2: Group)
    ensures
        flatten(seq![g1, g2]) == g1.rows@ + g2.rows@,
{
    let gs = seq![g1, g2];
    assert(gs.take(1).take(0) =~= Seq::<Group>::empty());
    assert(gs.take(2) =~= gs);
    lemma_flatten_step(gs, 0);
    lemma_flatten_step(gs, 1);
    assert(Seq::<Row>::empty() + g1.rows@ =~= g1.rows@);
}

/// Projecting two groups with no hidden column yields the first group's rows
/// and then the second's, each in its order.
pub proof fn lemma_groups_flattened_in_order(sel: SelectedGroups, p: ProjectedResult)
    requires
        sel.groups@.len() == 2,
        forall|i: int|
            0 <= i < sel.titles@.len() ==> !titles_view(sel.hidden@).contains(#[trigger] sel.titles@[i]@),
        sel.consistent(),
        projects_to(sel, p),
    ensures
        p.rows@.len() == sel.groups@[0].rows@.len() + sel.groups@[1].rows@.len(),
        forall|k: int|
            0 <= k < p.rows@.len() ==> #[trigger] p.rows@[k].values@ == (sel.groups@[0].rows@
                + sel.groups@[1].rows@)[k].values@,
{
    let mask = sel.mask();
    assert(sel.groups@ =~= seq![sel.groups@[0], sel.groups@[1]]);
    lemma_flatten_two(sel.groups@[0], sel.groups@[1]);
    assert forall|i: int| 0 <= i < mask.len() implies mask[i] by {
        assert(titles_view(sel.titles@)[i] == sel.titles@[i]@);
    }
    assert forall|k: int| 0 <= k < p.rows@.len() implies #[trigger] p.rows@[k].values@ == (
    sel.groups@[0].rows@ + sel.groups@[1].rows@)[k].values@ by {
        lemma_keep_all(mask, flatten(sel.groups@)[k].values@);
    }
}

} // verus!
