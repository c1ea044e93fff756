//! The attachment coordinator: inserting a parent together with the batch of
//! image rows it owns, and retrieving parents together with their owned
//! images from a flattened join.
//!
//! Retrieval reconstructs the parent-image groupings from the ordered row
//! stream with a small state machine: it either holds an accumulating
//! (parent, images so far) pair or nothing. A row whose parent differs from
//! a full accumulator flushes it; a row carrying well-formed image columns
//! is appended; an accumulator that has reached its parent's declared image
//! count is flushed at once; whatever remains at stream end is flushed too.

use vstd::prelude::*;

use crate::handles::DbData;
use crate::handles::Record;
use crate::handles::Repo;
use crate::handles::lemma_spec_find_append;
use crate::handles::lemma_spec_find_contains;
use crate::handles::spec_find;
use crate::handles::views_of;
use crate::models::DBImage;
use crate::models::DBImageParams;
use crate::models::ImageView;
use crate::models::RepoError;

verus! {

/// One row of the flattened join: the parent's columns, and the image
/// columns where the joined image row exists (a parent with no images
/// yields one row without image columns).
pub struct JoinRow<D> {
    pub parent: D,
    pub image: Option<DBImage>,
}

/// The view of one join row.
#[verifier::ext_equal]
pub struct JoinRowView<V> {
    pub parent: V,
    pub image: Option<crate::models::ImageView>,
}

impl<D: View> View for JoinRow<D> {
    type V = JoinRowView<D::V>;

    open spec fn view(&self) -> JoinRowView<D::V> {
        JoinRowView {
            parent: self.parent@,
            image: match self.image {
                Some(img) => Some(img@),
                None => None,
            },
        }
    }
}

/// One reconstructed grouping: a parent with its ordered owned images.
#[verifier::ext_equal]
pub struct GroupView<V> {
    pub parent: V,
    pub images: Seq<crate::models::ImageView>,
}

/// The view of one accumulated (parent, images) pair.
pub open spec fn group_of<D: Record>(t: (D, Vec<DBImage>)) -> GroupView<D::V> {
    GroupView { parent: t.0@, images: views_of(t.1@) }
}

/// The views of the reconstructed groupings.
pub open spec fn groups_view<D: Record>(s: Seq<(D, Vec<DBImage>)>) -> Seq<GroupView<D::V>> {
    s.map_values(|t: (D, Vec<DBImage>)| group_of::<D>(t))
}

/// The view of the optional accumulator.
pub open spec fn acc_view<D: Record>(o: Option<(D, Vec<DBImage>)>) -> Option<GroupView<D::V>> {
    match o {
        Some(t) => Some(group_of::<D>(t)),
        None => None,
    }
}

/// One step of the reconstruction state machine.
///
/// If there is no accumulator, or the row's parent differs from the
/// accumulator's and the accumulator already holds exactly its expected
/// count, the accumulator is flushed and a fresh one starts for the row's
/// parent. A row carrying image columns appends its image. An accumulator
/// that now holds exactly its parent's declared image count is flushed at
/// once, without waiting for the next distinct parent to appear.
pub open spec fn regroup_step<D: Record>(
    out: Seq<GroupView<D::V>>,
    acc: Option<GroupView<D::V>>,
    row: JoinRowView<D::V>,
) -> (Seq<GroupView<D::V>>, Option<GroupView<D::V>>) {
    let started = match acc {
        None => (out, GroupView { parent: row.parent, images: Seq::empty() }),
        Some(a) => if D::view_id(a.parent) != D::view_id(row.parent) && a.images.len()
            == D::view_img_ids(a.parent).len() {
            (out.push(a), GroupView { parent: row.parent, images: Seq::empty() })
        } else {
            (out, a)
        },
    };
    let out1 = started.0;
    let appended = match row.image {
        Some(img) => GroupView { parent: started.1.parent, images: started.1.images.push(img) },
        None => started.1,
    };
    if appended.images.len() == D::view_img_ids(appended.parent).len() {
        (out1.push(appended), None)
    } else {
        (out1, Some(appended))
    }
}

/// The state machine run over a row stream from a given state.
pub open spec fn regroup_from<D: Record>(
    out: Seq<GroupView<D::V>>,
    acc: Option<GroupView<D::V>>,
    rows: Seq<JoinRowView<D::V>>,
) -> (Seq<GroupView<D::V>>, Option<GroupView<D::V>>)
    decreases rows.len(),
{
    if rows.len() == 0 {
        (out, acc)
    } else {
        let stepped = regroup_step::<D>(out, acc, rows.first());
        regroup_from::<D>(stepped.0, stepped.1, rows.drop_first())
    }
}

/// The reconstruction of a whole row stream: the machine runs from the
/// empty state, and whatever accumulator remains at stream end is flushed.
pub open spec fn spec_regroup<D: Record>(rows: Seq<JoinRowView<D::V>>) -> Seq<GroupView<D::V>> {
    let ended = regroup_from::<D>(Seq::empty(), None, rows);
    match ended.1 {
        Some(g) => ended.0.push(g),
        None => ended.0,
    }
}

/// Running the machine over one more row steps its state once.
pub proof fn lemma_regroup_from_snoc<D: Record>(
    out: Seq<GroupView<D::V>>,
    acc: Option<GroupView<D::V>>,
    rows: Seq<JoinRowView<D::V>>,
    row: JoinRowView<D::V>,
)
    ensures
        regroup_from::<D>(out, acc, rows.push(row)) == ({
            let mid = regroup_from::<D>(out, acc, rows);
            regroup_step::<D>(mid.0, mid.1, row)
        }),
    decreases rows.len(),
{
    let whole = rows.push(row);
    assert(whole.len() == rows.len() + 1);
    if rows.len() == 0 {
        assert(whole.drop_first() =~= Seq::<JoinRowView<D::V>>::empty());
        assert(whole.first() == row);
        let stepped = regroup_step::<D>(out, acc, row);
        assert(regroup_from::<D>(out, acc, whole) == regroup_from::<D>(
            stepped.0,
            stepped.1,
            whole.drop_first(),
        ));
        assert(regroup_from::<D>(stepped.0, stepped.1, whole.drop_first()) == stepped);
        assert(regroup_from::<D>(out, acc, rows) == (out, acc));
    } else {
        assert(whole.first() == rows.first());
        assert(whole.drop_first() =~= rows.drop_first().push(row));
        let stepped = regroup_step::<D>(out, acc, rows.first());
        assert(regroup_from::<D>(out, acc, whole) == regroup_from::<D>(
            stepped.0,
            stepped.1,
            whole.drop_first(),
        ));
        lemma_regroup_from_snoc::<D>(stepped.0, stepped.1, rows.drop_first(), row);
        assert(regroup_from::<D>(out, acc, rows) == regroup_from::<D>(
            stepped.0,
            stepped.1,
            rows.drop_first(),
        ));
    }
}

/// Reconstructs parent-image groupings from the ordered row stream.
///
/// A row without well-formed image columns contributes no image: the soft-
/// failure policy drops it silently, and a parent whose count never fills
/// is still flushed when the stream ends.
pub fn regroup<D: Record>(rows: Vec<JoinRow<D>>) -> (r: Vec<(D, Vec<DBImage>)>)
    ensures
        groups_view::<D>(r@) == spec_regroup::<D>(views_of(rows@)),
{
    let ghost rvs = views_of(rows@);
    let mut result: Vec<(D, Vec<DBImage>)> = Vec::new();
    let mut current: Option<(D, Vec<DBImage>)> = None;
    let mut idx: usize = 0;
    while idx < rows.len()
        invariant
            idx <= rows.len(),
            rvs == views_of(rows@),
            rvs.len() == rows.len(),
            (groups_view::<D>(result@), acc_view::<D>(current)) == regroup_from::<D>(
                Seq::empty(),
                None,
                rvs.take(idx as int),
            ),
        decreases rows.len() - idx,
    {
        let ghost state0 = (groups_view::<D>(result@), acc_view::<D>(current));
        proof {
            assert(rvs[idx as int] == rows@[idx as int]@);
        }
        let row = &rows[idx];
        let row_parent = row.parent.clone_rec();
        let row_image: Option<DBImage> = match &row.image {
            Some(img) => Some(img.clone()),
            None => None,
        };
        let ghost rv = rvs[idx as int];
        proof {
            assert(row_parent@ == rv.parent);
            assert((match row_image {
                Some(img) => Some(img@),
                None => None,
            }) == rv.image);
        }

        // boundary: flush a full accumulator on a new parent, start fresh
        let prev = current;
        current = None;
        let mut acc: (D, Vec<DBImage>) = match prev {
            None => (row_parent, Vec::new()),
            Some((p, imgs)) => {
                if p.id() != row_parent.id() && imgs.len() == p.img_ids().len() {
                    result.push((p, imgs));
                    (row_parent, Vec::new())
                } else {
                    (p, imgs)
                }
            },
        };
        let ghost started = (groups_view::<D>(result@), group_of::<D>(acc));
        proof {
            assert(views_of(Seq::<DBImage>::empty()) =~= Seq::<crate::models::ImageView>::empty());
            if state0.1 is Some {
                let a = state0.1->Some_0;
                if D::view_id(a.parent) != D::view_id(rv.parent) && a.images.len()
                    == D::view_img_ids(a.parent).len() {
                    assert(groups_view::<D>(result@) =~= state0.0.push(a));
                }
            }
        }

        // a row with well-formed image columns appends its image
        if let Some(img) = row_image {
            let ghost before = views_of(acc.1@);
            acc.1.push(img);
            proof {
                assert(views_of(acc.1@) =~= before.push(rv.image->Some_0));
            }
        }
        let ghost appended = group_of::<D>(acc);

        // completion: flush as soon as the accumulator holds its expected count
        if acc.1.len() == acc.0.img_ids().len() {
            result.push(acc);
            current = None;
            proof {
                assert(groups_view::<D>(result@) =~= started.0.push(appended));
            }
        } else {
            current = Some(acc);
        }
        proof {
            assert((groups_view::<D>(result@), acc_view::<D>(current)) == regroup_step::<D>(
                state0.0,
                state0.1,
                rv,
            ));
            assert(rvs.take(idx + 1) =~= rvs.take(idx as int).push(rv));
            lemma_regroup_from_snoc::<D>(Seq::empty(), None, rvs.take(idx as int), rv);
        }
        idx = idx + 1;
    }
    proof {
        assert(rvs.take(rows.len() as int) =~= rvs);
    }
    // stream end: whatever accumulator remains is flushed
    if let Some(item) = current {
        let ghost g = group_of::<D>(item);
        result.push(item);
        proof {
            let ended = regroup_from::<D>(Seq::empty(), None, rvs);
            assert(groups_view::<D>(result@) =~= ended.0.push(g));
        }
    }
    result
}

/// The join rows one parent contributes: one row per owned image
/// identifier, carrying the image row it resolves to, or a single row
/// without image columns for a parent that owns none.
pub open spec fn parent_rows<D: Record>(p: D::V, imgs: Seq<ImageView>) -> Seq<JoinRowView<D::V>> {
    if D::view_img_ids(p).len() == 0 {
        seq![JoinRowView { parent: p, image: None }]
    } else {
        Seq::new(
            D::view_img_ids(p).len(),
            |k: int| JoinRowView {
                parent: p,
                image: spec_find::<DBImage>(imgs, D::view_img_ids(p)[k]),
            },
        )
    }
}

/// The flattened join of all parents against the image rows, parents in
/// storage order, each parent's rows contiguous and in identifier-list
/// order.
pub open spec fn spec_join<D: Record>(ps: Seq<D::V>, imgs: Seq<ImageView>) -> Seq<
    JoinRowView<D::V>,
>
    decreases ps.len(),
{
    if ps.len() == 0 {
        Seq::<JoinRowView<D::V>>::empty()
    } else {
        parent_rows::<D>(ps.first(), imgs) + spec_join::<D>(ps.drop_first(), imgs)
    }
}

/// Whether every image identifier a parent row holds resolves to a stored
/// image row: the ownership-link invariant.
pub open spec fn owned_images_resolve<D: Record>(ps: Seq<D::V>, imgs: Seq<ImageView>) -> bool {
    forall|i: int, k: int|
        0 <= i < ps.len() && 0 <= k < D::view_img_ids(ps[i]).len() ==> spec_find::<DBImage>(
            imgs,
            #[trigger] D::view_img_ids(#[trigger] ps[i])[k],
        ) is Some
}

/// The image rows a parent's identifier list references, in list order.
pub open spec fn images_of<D: Record>(p: D::V, imgs: Seq<ImageView>) -> Seq<ImageView> {
    Seq::new(
        D::view_img_ids(p).len(),
        |k: int| spec_find::<DBImage>(imgs, D::view_img_ids(p)[k])->Some_0,
    )
}

/// Joining one more parent appends its rows to the join.
pub proof fn lemma_spec_join_snoc<D: Record>(ps: Seq<D::V>, p: D::V, imgs: Seq<ImageView>)
    ensures
        spec_join::<D>(ps.push(p), imgs) == spec_join::<D>(ps, imgs) + parent_rows::<D>(p, imgs),
    decreases ps.len(),
{
    let whole = ps.push(p);
    if ps.len() == 0 {
        assert(whole.first() == p);
        assert(whole.drop_first() =~= Seq::<D::V>::empty());
        assert(spec_join::<D>(whole.drop_first(), imgs) == Seq::<JoinRowView<D::V>>::empty());
        assert(spec_join::<D>(whole, imgs) =~= spec_join::<D>(ps, imgs) + parent_rows::<D>(
            p,
            imgs,
        ));
    } else {
        assert(whole.first() == ps.first());
        assert(whole.drop_first() =~= ps.drop_first().push(p));
        lemma_spec_join_snoc::<D>(ps.drop_first(), p, imgs);
        assert(spec_join::<D>(whole, imgs) == parent_rows::<D>(ps.first(), imgs) + (spec_join::<
            D,
        >(ps.drop_first(), imgs) + parent_rows::<D>(p, imgs)));
        assert(parent_rows::<D>(ps.first(), imgs) + (spec_join::<D>(ps.drop_first(), imgs)
            + parent_rows::<D>(p, imgs)) =~= (parent_rows::<D>(ps.first(), imgs) + spec_join::<D>(
            ps.drop_first(),
            imgs,
        )) + parent_rows::<D>(p, imgs));
    }
}

/// One reconstructed grouping per parent row, in order, each pairing the
/// parent with the image rows its identifier list references.
pub open spec fn spec_groups<D: Record>(ps: Seq<D::V>, imgs: Seq<ImageView>) -> Seq<
    GroupView<D::V>,
> {
    Seq::new(ps.len(), |i: int| GroupView { parent: ps[i], images: images_of::<D>(ps[i], imgs) })
}

/// Running the machine over concatenated streams runs it over each in turn.
pub proof fn lemma_regroup_from_concat<D: Record>(
    out: Seq<GroupView<D::V>>,
    acc: Option<GroupView<D::V>>,
    s1: Seq<JoinRowView<D::V>>,
    s2: Seq<JoinRowView<D::V>>,
)
    ensures
        regroup_from::<D>(out, acc, s1 + s2) == ({
            let mid = regroup_from::<D>(out, acc, s1);
            regroup_from::<D>(mid.0, mid.1, s2)
        }),
    decreases s1.len(),
{
    if s1.len() == 0 {
        assert(s1 + s2 =~= s2);
    } else {
        assert((s1 + s2).first() == s1.first());
        assert((s1 + s2).drop_first() =~= s1.drop_first() + s2);
        let stepped = regroup_step::<D>(out, acc, s1.first());
        lemma_regroup_from_concat::<D>(stepped.0, stepped.1, s1.drop_first(), s2);
    }
}

/// Processing the tail of one parent's rows from a part-filled accumulator
/// fills and flushes it.
proof fn lemma_regroup_parent_tail<D: Record>(
    out: Seq<GroupView<D::V>>,
    p: D::V,
    imgs: Seq<ImageView>,
    j: int,
)
    requires
        1 <= j < D::view_img_ids(p).len(),
        forall|k: int|
            0 <= k < D::view_img_ids(p).len() ==> spec_find::<DBImage>(
                imgs,
                #[trigger] D::view_img_ids(p)[k],
            ) is Some,
    ensures
        regroup_from::<D>(
            out,
            Some(GroupView { parent: p, images: images_of::<D>(p, imgs).take(j) }),
            parent_rows::<D>(p, imgs).skip(j),
        ) == (
            out.push(GroupView { parent: p, images: images_of::<D>(p, imgs) }),
            None::<GroupView<D::V>>,
        ),
    decreases D::view_img_ids(p).len() - j,
{
    let m = D::view_img_ids(p).len() as int;
    let pr = parent_rows::<D>(p, imgs);
    let full = images_of::<D>(p, imgs);
    let tail = pr.skip(j);
    assert(tail.first() == pr[j]);
    assert(pr[j] == JoinRowView { parent: p, image: spec_find::<DBImage>(imgs, D::view_img_ids(p)[j]) });
    assert(spec_find::<DBImage>(imgs, D::view_img_ids(p)[j]) is Some);
    let acc = GroupView { parent: p, images: full.take(j) };
    let stepped = regroup_step::<D>(out, Some(acc), pr[j]);
    assert(full.take(j).len() == j);
    assert(full.take(j).push(full[j]) =~= full.take(j + 1));
    assert(stepped.0 == out || j + 1 == m) by {
        assert(full.take(j).len() < D::view_img_ids(p).len());
    }
    assert(tail.drop_first() =~= pr.skip(j + 1));
    assert(tail.len() > 0);
    assert(regroup_from::<D>(out, Some(acc), tail) == regroup_from::<D>(
        stepped.0,
        stepped.1,
        tail.drop_first(),
    ));
    if j + 1 == m {
        assert(full.take(j + 1) =~= full);
        assert(stepped == (
            out.push(GroupView { parent: p, images: full }),
            None::<GroupView<D::V>>,
        ));
        assert(pr.skip(j + 1).len() == 0);
        assert(regroup_from::<D>(stepped.0, stepped.1, tail.drop_first()) == stepped);
    } else {
        assert(stepped == (
            out,
            Some(GroupView { parent: p, images: full.take(j + 1) }),
        ));
        lemma_regroup_parent_tail::<D>(out, p, imgs, j + 1);
        assert(regroup_from::<D>(stepped.0, stepped.1, pr.skip(j + 1)) == (
            out.push(GroupView { parent: p, images: full }),
            None::<GroupView<D::V>>,
        ));
    }
}

/// Processing one parent's rows from an empty accumulator yields exactly
/// its grouping and leaves the machine empty.
proof fn lemma_regroup_parent<D: Record>(out: Seq<GroupView<D::V>>, p: D::V, imgs: Seq<ImageView>)
    requires
        forall|k: int|
            0 <= k < D::view_img_ids(p).len() ==> spec_find::<DBImage>(
                imgs,
                #[trigger] D::view_img_ids(p)[k],
            ) is Some,
    ensures
        regroup_from::<D>(out, None, parent_rows::<D>(p, imgs)) == (
            out.push(GroupView { parent: p, images: images_of::<D>(p, imgs) }),
            None::<GroupView<D::V>>,
        ),
{
    let m = D::view_img_ids(p).len() as int;
    let pr = parent_rows::<D>(p, imgs);
    let full = images_of::<D>(p, imgs);
    assert(full.len() == m);
    if m == 0 {
        assert(pr =~= seq![JoinRowView { parent: p, image: None::<ImageView> }]);
        let stepped = regroup_step::<D>(out, None, pr[0]);
        assert(full =~= Seq::<ImageView>::empty());
        assert(stepped == (
            out.push(GroupView { parent: p, images: full }),
            None::<GroupView<D::V>>,
        ));
        assert(pr.first() == pr[0]);
        assert(pr.drop_first() =~= Seq::<JoinRowView<D::V>>::empty());
        assert(regroup_from::<D>(out, None, pr) == regroup_from::<D>(
            stepped.0,
            stepped.1,
            pr.drop_first(),
        ));
        assert(regroup_from::<D>(stepped.0, stepped.1, pr.drop_first()) == stepped);
    } else {
        assert(pr.first() == pr[0]);
        assert(pr[0] == JoinRowView { parent: p, image: spec_find::<DBImage>(imgs, D::view_img_ids(p)[0]) });
        assert(spec_find::<DBImage>(imgs, D::view_img_ids(p)[0]) is Some);
        let stepped = regroup_step::<D>(out, None, pr[0]);
        assert(Seq::<ImageView>::empty().push(full[0]) =~= full.take(1));
        assert(pr.drop_first() =~= pr.skip(1));
        assert(regroup_from::<D>(out, None, pr) == regroup_from::<D>(
            stepped.0,
            stepped.1,
            pr.drop_first(),
        ));
        if m == 1 {
            assert(full.take(1) =~= full);
            assert(stepped == (
                out.push(GroupView { parent: p, images: full }),
                None::<GroupView<D::V>>,
            ));
            assert(pr.skip(1).len() == 0);
            assert(regroup_from::<D>(stepped.0, stepped.1, pr.drop_first()) == stepped);
        } else {
            assert(stepped == (out, Some(GroupView { parent: p, images: full.take(1) })));
            lemma_regroup_parent_tail::<D>(out, p, imgs, 1);
            assert(regroup_from::<D>(stepped.0, stepped.1, pr.skip(1)) == (
                out.push(GroupView { parent: p, images: full }),
                None::<GroupView<D::V>>,
            ));
        }
    }
}

/// Processing the whole join from an empty accumulator yields one grouping
/// per parent, in order, and leaves the machine empty.
proof fn lemma_regroup_join_from<D: Record>(
    out: Seq<GroupView<D::V>>,
    ps: Seq<D::V>,
    imgs: Seq<ImageView>,
)
    requires
        owned_images_resolve::<D>(ps, imgs),
    ensures
        regroup_from::<D>(out, None, spec_join::<D>(ps, imgs)) == (
            out + spec_groups::<D>(ps, imgs),
            None::<GroupView<D::V>>,
        ),
    decreases ps.len(),
{
    if ps.len() == 0 {
        assert(out + spec_groups::<D>(ps, imgs) =~= out);
    } else {
        let p = ps.first();
        let rest = ps.drop_first();
        lemma_regroup_from_concat::<D>(
            out,
            None,
            parent_rows::<D>(p, imgs),
            spec_join::<D>(rest, imgs),
        );
        assert forall|k: int| 0 <= k < D::view_img_ids(p).len() implies spec_find::<DBImage>(
            imgs,
            #[trigger] D::view_img_ids(p)[k],
        ) is Some by {
            assert(ps[0] == p);
        }
        lemma_regroup_parent::<D>(out, p, imgs);
        assert forall|i: int, k: int|
            0 <= i < rest.len() && 0 <= k < D::view_img_ids(rest[i]).len() implies spec_find::<
            DBImage,
        >(imgs, #[trigger] D::view_img_ids(#[trigger] rest[i])[k]) is Some by {
            assert(rest[i] == ps[i + 1]);
            assert(spec_find::<DBImage>(imgs, D::view_img_ids(ps[i + 1])[k]) is Some);
        }
        let g0 = GroupView { parent: p, images: images_of::<D>(p, imgs) };
        lemma_regroup_join_from::<D>(out.push(g0), rest, imgs);
        assert(out.push(g0) + spec_groups::<D>(rest, imgs) =~= out + spec_groups::<D>(ps, imgs))
            by {
            assert forall|i: int| 0 <= i < ps.len() implies #[trigger] spec_groups::<D>(ps, imgs)[i]
                == (seq![g0] + spec_groups::<D>(rest, imgs))[i] by {
                if i > 0 {
                    assert(rest[i - 1] == ps[i]);
                }
            }
        }
    }
}

/// Grouped retrieval completeness: reconstructing the flattened join of a
/// parent store whose ownership links all resolve yields exactly one
/// grouping per parent row, in storage order, each pairing the parent with
/// the image rows its identifier list references, in list order — an empty
/// list included.
pub proof fn lemma_regroup_join<D: Record>(ps: Seq<D::V>, imgs: Seq<ImageView>)
    requires
        owned_images_resolve::<D>(ps, imgs),
    ensures
        spec_regroup::<D>(spec_join::<D>(ps, imgs)) == spec_groups::<D>(ps, imgs),
{
    lemma_regroup_join_from::<D>(Seq::empty(), ps, imgs);
    assert(Seq::empty() + spec_groups::<D>(ps, imgs) =~= spec_groups::<D>(ps, imgs));
}

/// Issues the flattened join against the two stores: each parent's rows
/// contiguous, one row per owned image identifier, or one image-less row
/// for a parent that owns none.
pub fn join_rows<D: Record>(parents: &Repo<D>, images: &Repo<DBImage>) -> (r: Vec<JoinRow<D>>)
    ensures
        views_of(r@) == spec_join::<D>(parents.rows_view(), images.rows_view()),
{
    let ghost ps = parents.rows_view();
    let ghost imgs = images.rows_view();
    let all = parents.get_multiple();
    let mut rows: Vec<JoinRow<D>> = Vec::new();
    let mut i: usize = 0;
    while i < all.len()
        invariant
            i <= all.len(),
            ps == parents.rows_view(),
            imgs == images.rows_view(),
            views_of(all@) == ps,
            all@.len() == ps.len(),
            views_of(rows@) == spec_join::<D>(ps.take(i as int), imgs),
        decreases all.len() - i,
    {
        proof {
            assert(all@[i as int]@ == ps[i as int]);
        }
        let parent = &all[i];
        let ids = parent.img_ids();
        let ghost pv = ps[i as int];
        let ghost base = views_of(rows@);
        if ids.len() == 0 {
            let ghost prev = rows@;
            rows.push(JoinRow { parent: parent.clone_rec(), image: None });
            proof {
                assert forall|k: int| 0 <= k < rows@.len() implies #[trigger] views_of(rows@)[k]
                    == (base + parent_rows::<D>(pv, imgs))[k] by {
                    assert(views_of(rows@)[k] == rows@[k]@);
                    if k < prev.len() {
                        assert(rows@[k] == prev[k]);
                        assert(views_of(prev)[k] == prev[k]@);
                    }
                }
                assert(views_of(rows@) =~= base + parent_rows::<D>(pv, imgs));
            }
        } else {
            let mut k: usize = 0;
            while k < ids.len()
                invariant
                    k <= ids.len(),
                    imgs == images.rows_view(),
                    ids@ == D::view_img_ids(pv),
                    parent@ == pv,
                    D::view_img_ids(pv).len() > 0,
                    views_of(rows@) == base + parent_rows::<D>(pv, imgs).take(k as int),
                decreases ids.len() - k,
            {
                let img = images.get_single_by(ids[k]);
                let ghost imgv = crate::handles::opt_rec_view(img);
                let ghost prev = rows@;
                rows.push(JoinRow { parent: parent.clone_rec(), image: img });
                proof {
                    let pr = parent_rows::<D>(pv, imgs);
                    assert(views_of(prev).len() == prev.len());
                    assert(prev.len() == base.len() + k);
                    assert(imgv == spec_find::<DBImage>(imgs, D::view_img_ids(pv)[k as int]));
                    assert forall|j: int| 0 <= j < rows@.len() implies #[trigger] views_of(rows@)[j]
                        == (base + pr.take(k + 1))[j] by {
                        assert(views_of(rows@)[j] == rows@[j]@);
                        if j < base.len() {
                            assert(rows@[j] == prev[j]);
                            assert(views_of(prev)[j] == prev[j]@);
                            assert((base + pr.take(k as int))[j] == base[j]);
                            assert((base + pr.take(k + 1))[j] == base[j]);
                        } else if j < prev.len() {
                            assert(rows@[j] == prev[j]);
                            assert(views_of(prev)[j] == prev[j]@);
                            assert((base + pr.take(k as int))[j] == pr.take(k as int)[j
                                - base.len()]);
                            assert(pr.take(k as int)[j - base.len()] == pr[j - base.len()]);
                            assert((base + pr.take(k + 1))[j] == pr.take(k + 1)[j - base.len()]);
                            assert(pr.take(k + 1)[j - base.len()] == pr[j - base.len()]);
                        } else {
                            assert(j == prev.len());
                            assert(rows@[j]@ == JoinRowView { parent: pv, image: imgv });
                            assert((base + pr.take(k + 1))[j] == pr.take(k + 1)[k as int]);
                            assert(pr.take(k + 1)[k as int] == pr[k as int]);
                            assert(pr[k as int] == JoinRowView {
                                parent: pv,
                                image: spec_find::<DBImage>(imgs, D::view_img_ids(pv)[k as int]),
                            });
                        }
                    }
                    assert(views_of(rows@) =~= base + pr.take(k + 1));
                }
                k = k + 1;
            }
            proof {
                assert(parent_rows::<D>(pv, imgs).take(ids@.len() as int) =~= parent_rows::<D>(
                    pv,
                    imgs,
                ));
            }
        }
        proof {
            assert(ps.take(i + 1) =~= ps.take(i as int).push(pv));
            lemma_spec_join_snoc::<D>(ps.take(i as int), pv, imgs);
        }
        i = i + 1;
    }
    proof {
        assert(ps.take(all@.len() as int) =~= ps);
    }
    rows
}

/// How many image payloads a batch of parameter values embeds in all.
pub open spec fn total_imgs<D: DbData<P>, P: View>(ps: Seq<P::V>) -> nat
    decreases ps.len(),
{
    if ps.len() == 0 {
        0
    } else {
        total_imgs::<D, P>(ps.drop_last()) + D::spec_img_params(ps.last()).len()
    }
}

/// One more batch item adds its own payload count.
pub proof fn lemma_total_imgs_snoc<D: DbData<P>, P: View>(ms: Seq<P::V>, j: int)
    requires
        0 <= j < ms.len(),
    ensures
        total_imgs::<D, P>(ms.take(j + 1)) == total_imgs::<D, P>(ms.take(j))
            + D::spec_img_params(ms[j]).len(),
{
    assert(ms.take(j + 1).drop_last() =~= ms.take(j));
    assert(ms.take(j + 1).last() == ms[j]);
}

/// A batch prefix embeds no more payloads than the whole batch.
pub proof fn lemma_total_imgs_mono<D: DbData<P>, P: View>(ms: Seq<P::V>, j: int)
    requires
        0 <= j <= ms.len(),
    ensures
        total_imgs::<D, P>(ms.take(j)) <= total_imgs::<D, P>(ms),
    decreases ms.len() - j,
{
    if j == ms.len() {
        assert(ms.take(j) =~= ms);
    } else {
        lemma_total_imgs_snoc::<D, P>(ms, j);
        lemma_total_imgs_mono::<D, P>(ms, j + 1);
    }
}

/// A shorter batch prefix embeds no more payloads than a longer one.
pub proof fn lemma_total_imgs_mono_range<D: DbData<P>, P: View>(ms: Seq<P::V>, a: int, b: int)
    requires
        0 <= a <= b <= ms.len(),
    ensures
        total_imgs::<D, P>(ms.take(a)) <= total_imgs::<D, P>(ms.take(b)),
    decreases b - a,
{
    if a < b {
        lemma_total_imgs_snoc::<D, P>(ms, b - 1);
        lemma_total_imgs_mono_range::<D, P>(ms, a, b - 1);
    }
}

/// Creates one image row per payload, in submission order, and returns the
/// generated identifiers in that same order.
pub fn insert_images(images: &mut Repo<DBImage>, imgs: Vec<DBImageParams>) -> (ids: Vec<u64>)
    requires
        old(images).wf(),
        old(images).spec_next_id() + imgs@.len() <= u64::MAX,
    ensures
        final(images).wf(),
        final(images).spec_next_id() == old(images).spec_next_id() + imgs@.len(),
        final(images).rows_view().len() == old(images).rows_view().len() + imgs@.len(),
        final(images).rows_view().take(old(images).rows_view().len() as int) == old(
            images,
        ).rows_view(),
        forall|k: int|
            0 <= k < imgs@.len() ==> ({
                let iv = #[trigger] final(images).rows_view()[old(images).rows_view().len() + k];
                &&& iv.id == old(images).spec_next_id() + k
                &&& <DBImage as DbData<DBImageParams>>::spec_params_match(views_of(imgs@)[k], iv)
            }),
        ids@.len() == imgs@.len(),
        forall|k: int| 0 <= k < imgs@.len() ==> ids@[k] == old(images).spec_next_id() + k,
{
    let ghost i0 = images.rows_view();
    let ghost inext0 = images.spec_next_id();
    let ghost m = imgs@.len() as int;
    let mut ids: Vec<u64> = Vec::new();
    let mut k: usize = 0;
    while k < imgs.len()
        invariant
            k <= imgs.len(),
            imgs@.len() == m,
            images.wf(),
            inext0 + m <= u64::MAX,
            images.spec_next_id() == inext0 + k,
            images.rows_view().len() == i0.len() + k,
            images.rows_view().take(i0.len() as int) == i0,
            forall|j: int|
                0 <= j < k ==> ({
                    let iv = #[trigger] images.rows_view()[i0.len() + j];
                    &&& iv.id == inext0 + j
                    &&& <DBImage as DbData<DBImageParams>>::spec_params_match(
                        views_of(imgs@)[j],
                        iv,
                    )
                }),
            ids@.len() == k,
            forall|j: int| 0 <= j < k ==> ids@[j] == inext0 + j,
        decreases imgs.len() - k,
    {
        let ghost prev = images.rows_view();
        proof {
            assert(views_of(imgs@)[k as int] == imgs@[k as int]@);
        }
        let rec = images.insert_one(imgs[k].clone()).unwrap();
        let rid = rec.id();
        ids.push(rid);
        proof {
            assert(images.rows_view() == prev.push(rec@));
            assert(images.rows_view().take(i0.len() as int) =~= prev.take(i0.len() as int));
            assert(rec@.id == inext0 + k);
            assert forall|j: int| 0 <= j < k + 1 implies ({
                let iv = #[trigger] images.rows_view()[i0.len() + j];
                &&& iv.id == inext0 + j
                &&& <DBImage as DbData<DBImageParams>>::spec_params_match(views_of(imgs@)[j], iv)
            }) by {
                if j < k {
                    assert(images.rows_view()[i0.len() + j] == prev[i0.len() + j]);
                } else {
                    assert(images.rows_view()[i0.len() + j] == rec@);
                }
            }
        }
        k = k + 1;
    }
    ids
}

/// Inserts one parent together with its embedded image payloads: the image
/// rows are created first, in submission order, and the parent is created
/// immediately after, owning the resulting identifier list.
fn insert_one_with_images<D, P: View>(
    parents: &mut Repo<D>,
    images: &mut Repo<DBImage>,
    params: P,
) -> (r: Result<D, RepoError>) where D: DbData<P>
    requires
        old(parents).wf(),
        old(images).wf(),
        D::spec_owns_images(),
        D::spec_bind_arity() + 1 == D::spec_fields().len(),
        old(parents).spec_next_id() < u64::MAX,
        old(images).spec_next_id() + D::spec_img_params(params@).len() <= u64::MAX,
    ensures
        final(parents).wf(),
        final(images).wf(),
        final(parents).spec_next_id() == old(parents).spec_next_id() + 1,
        final(images).spec_next_id() == old(images).spec_next_id() + D::spec_img_params(
            params@,
        ).len(),
        final(images).rows_view().len() == old(images).rows_view().len() + D::spec_img_params(
            params@,
        ).len(),
        final(images).rows_view().take(old(images).rows_view().len() as int) == old(
            images,
        ).rows_view(),
        forall|k: int|
            0 <= k < D::spec_img_params(params@).len() ==> ({
                let iv = #[trigger] final(images).rows_view()[old(images).rows_view().len() + k];
                &&& iv.id == old(images).spec_next_id() + k
                &&& <DBImage as DbData<DBImageParams>>::spec_params_match(
                    D::spec_img_params(params@)[k],
                    iv,
                )
            }),
        r is Ok,
        match r {
            Ok(rec) => D::view_id(rec@) == old(parents).spec_next_id() && D::spec_params_match(
                params@,
                rec@,
            ) && D::view_img_ids(rec@) == Seq::new(
                D::spec_img_params(params@).len(),
                |k: int| (old(images).spec_next_id() + k) as u64,
            ) && final(parents).rows_view() == old(parents).rows_view().push(rec@),
            Err(_) => false,
        },
{
    let ghost pv = params@;
    let ghost i0 = images.rows_view();
    let ghost inext0 = images.spec_next_id();
    let ghost m = D::spec_img_params(pv).len();
    let mut p = params;
    let imgs_opt = D::take_images(&mut p);
    let imgs: Vec<DBImageParams> = match imgs_opt {
        Some(v) => v,
        None => {
            proof {
                assert(false);
            }
            Vec::new()
        },
    };
    proof {
        assert(views_of(imgs@) == D::spec_img_params(pv));
        assert(views_of(imgs@).len() == imgs@.len());
    }
    let ids = insert_images(images, imgs);
    let rec = parents.insert_with_img_ids(p, ids).unwrap();
    proof {
        D::lemma_strip_preserves_match(pv, rec@);
        assert(D::view_img_ids(rec@) =~= Seq::new(m, |k: int| (inext0 + k) as u64));
    }
    Ok(rec)
}

/// Inserts a batch of parents, each together with its embedded image
/// payloads. A kind that does not carry an embedded image list fails with
/// `ImagePolicyViolation` on the first item, before anything is stored; an
/// empty batch succeeds and stores nothing. Each item's image rows are
/// created first, in submission order, and its parent immediately after,
/// owning exactly the resulting identifier list.
pub fn insert_multiple_with_images<D, P: View>(
    parents: &mut Repo<D>,
    images: &mut Repo<DBImage>,
    multiple: Vec<P>,
) -> (r: Result<(), RepoError>) where D: DbData<P>
    requires
        old(parents).wf(),
        old(images).wf(),
        D::spec_owns_images() ==> D::spec_bind_arity() + 1 == D::spec_fields().len(),
        D::spec_owns_images() ==> old(parents).spec_next_id() + multiple@.len() <= u64::MAX,
        D::spec_owns_images() ==> old(images).spec_next_id() + total_imgs::<D, P>(
            views_of(multiple@),
        ) <= u64::MAX,
    ensures
        final(parents).wf(),
        final(images).wf(),
        !D::spec_owns_images() && multiple@.len() > 0 ==> r == Err::<(), RepoError>(
            RepoError::ImagePolicyViolation,
        ) && *final(parents) == *old(parents) && *final(images) == *old(images),
        multiple@.len() == 0 ==> r is Ok && final(parents).rows_view() == old(parents).rows_view()
            && final(parents).spec_next_id() == old(parents).spec_next_id()
            && final(images).rows_view() == old(images).rows_view()
            && final(images).spec_next_id() == old(images).spec_next_id(),
        D::spec_owns_images() ==> r is Ok && ({
            let ms = views_of(multiple@);
            let n = ms.len() as int;
            let p0 = old(parents).rows_view();
            let i0 = old(images).rows_view();
            let pn0 = old(parents).spec_next_id();
            let in0 = old(images).spec_next_id();
            &&& final(parents).spec_next_id() == pn0 + n
            &&& final(images).spec_next_id() == in0 + total_imgs::<D, P>(ms)
            &&& final(parents).rows_view().len() == p0.len() + n
            &&& final(parents).rows_view().take(p0.len() as int) == p0
            &&& final(images).rows_view().len() == i0.len() + total_imgs::<D, P>(ms)
            &&& final(images).rows_view().take(i0.len() as int) == i0
            &&& forall|j: int|
                0 <= j < n ==> ({
                    let newp = #[trigger] final(parents).rows_view()[p0.len() + j];
                    &&& D::view_id(newp) == pn0 + j
                    &&& D::spec_params_match(ms[j], newp)
                    &&& D::view_img_ids(newp) == Seq::new(
                        D::spec_img_params(ms[j]).len(),
                        |k: int| (in0 + total_imgs::<D, P>(ms.take(j)) + k) as u64,
                    )
                })
            &&& forall|j: int, k: int|
                0 <= j < n && 0 <= k < D::spec_img_params(ms[j]).len() ==> ({
                    let iv = #[trigger] final(images).rows_view()[i0.len() + total_imgs::<D, P>(
                        ms.take(j),
                    ) + k];
                    &&& iv.id == in0 + total_imgs::<D, P>(ms.take(j)) + k
                    &&& <DBImage as DbData<DBImageParams>>::spec_params_match(
                        D::spec_img_params(ms[j])[k],
                        iv,
                    )
                })
        }),
        D::spec_owns_images() && owned_images_resolve::<D>(
            old(parents).rows_view(),
            old(images).rows_view(),
        ) ==> owned_images_resolve::<D>(final(parents).rows_view(), final(images).rows_view()),
{
    let ghost ms = views_of(multiple@);
    let ghost n = ms.len() as int;
    let ghost p0 = parents.rows_view();
    let ghost i0 = images.rows_view();
    let ghost pn0 = parents.spec_next_id();
    let ghost in0 = images.spec_next_id();
    proof {
        assert(ms.len() == multiple@.len());
    }
    if !D::owns_images() {
        if multiple.len() > 0 {
            return Err(RepoError::ImagePolicyViolation);
        }
        return Ok(());
    }
    let mut items = multiple;
    let ghost mut done: int = 0;
    while items.len() > 0
        invariant
            D::spec_owns_images(),
            D::spec_bind_arity() + 1 == D::spec_fields().len(),
            0 <= done <= n,
            n == ms.len(),
            items@.len() == n - done,
            forall|i: int| 0 <= i < items@.len() ==> (#[trigger] items@[i])@ == ms[done + i],
            parents.wf(),
            images.wf(),
            pn0 + n <= u64::MAX,
            in0 + total_imgs::<D, P>(ms) <= u64::MAX,
            parents.spec_next_id() == pn0 + done,
            images.spec_next_id() == in0 + total_imgs::<D, P>(ms.take(done)),
            parents.rows_view().len() == p0.len() + done,
            parents.rows_view().take(p0.len() as int) == p0,
            images.rows_view().len() == i0.len() + total_imgs::<D, P>(ms.take(done)),
            images.rows_view().take(i0.len() as int) == i0,
            forall|j: int|
                0 <= j < done ==> ({
                    let newp = #[trigger] parents.rows_view()[p0.len() + j];
                    &&& D::view_id(newp) == pn0 + j
                    &&& D::spec_params_match(ms[j], newp)
                    &&& D::view_img_ids(newp) == Seq::new(
                        D::spec_img_params(ms[j]).len(),
                        |k: int| (in0 + total_imgs::<D, P>(ms.take(j)) + k) as u64,
                    )
                }),
            forall|j: int, k: int|
                0 <= j < done && 0 <= k < D::spec_img_params(ms[j]).len() ==> ({
                    let iv = #[trigger] images.rows_view()[i0.len() + total_imgs::<D, P>(
                        ms.take(j),
                    ) + k];
                    &&& iv.id == in0 + total_imgs::<D, P>(ms.take(j)) + k
                    &&& <DBImage as DbData<DBImageParams>>::spec_params_match(
                        D::spec_img_params(ms[j])[k],
                        iv,
                    )
                }),
        decreases items@.len(),
    {
        let ghost pmid = parents.rows_view();
        let ghost imid = images.rows_view();
        let ghost imid_next = images.spec_next_id();
        let ghost items0 = items@;
        let params = items.remove(0);
        proof {
            assert(items0[0] == params);
            assert(params@ == ms[done]);
            assert forall|i: int| 0 <= i < items@.len() implies (#[trigger] items@[i])@ == ms[done
                + 1 + i] by {
                assert(items@[i] == items0[i + 1]);
            }
            lemma_total_imgs_snoc::<D, P>(ms, done);
            lemma_total_imgs_mono::<D, P>(ms, done + 1);
        }
        let rec = insert_one_with_images(parents, images, params).unwrap();
        proof {
            let ghost c = D::spec_img_params(ms[done]).len() as int;
            assert(parents.rows_view() == pmid.push(rec@));
            assert(parents.rows_view().take(p0.len() as int) =~= pmid.take(p0.len() as int));
            assert forall|idx: int| 0 <= idx < imid.len() implies #[trigger] images.rows_view()[idx]
                == imid[idx] by {
                assert(images.rows_view().take(imid.len() as int)[idx] == images.rows_view()[idx]);
            }
            assert(images.rows_view().take(i0.len() as int) =~= imid.take(i0.len() as int));
            assert forall|j: int| 0 <= j < done + 1 implies ({
                let newp = #[trigger] parents.rows_view()[p0.len() + j];
                &&& D::view_id(newp) == pn0 + j
                &&& D::spec_params_match(ms[j], newp)
                &&& D::view_img_ids(newp) == Seq::new(
                    D::spec_img_params(ms[j]).len(),
                    |k: int| (in0 + total_imgs::<D, P>(ms.take(j)) + k) as u64,
                )
            }) by {
                if j < done {
                    assert(parents.rows_view()[p0.len() + j] == pmid[p0.len() + j]);
                } else {
                    assert(parents.rows_view()[p0.len() + j] == rec@);
                    assert(imid_next == in0 + total_imgs::<D, P>(ms.take(done)));
                    assert(D::view_img_ids(rec@) =~= Seq::new(
                        D::spec_img_params(ms[done]).len(),
                        |k: int| (in0 + total_imgs::<D, P>(ms.take(done)) + k) as u64,
                    ));
                }
            }
            assert forall|j: int, k: int|
                0 <= j < done + 1 && 0 <= k < D::spec_img_params(ms[j]).len() implies ({
                let iv = #[trigger] images.rows_view()[i0.len() + total_imgs::<D, P>(ms.take(j))
                    + k];
                &&& iv.id == in0 + total_imgs::<D, P>(ms.take(j)) + k
                &&& <DBImage as DbData<DBImageParams>>::spec_params_match(
                    D::spec_img_params(ms[j])[k],
                    iv,
                )
            }) by {
                if j < done {
                    lemma_total_imgs_snoc::<D, P>(ms, j);
                    lemma_total_imgs_mono_range::<D, P>(ms, j + 1, done);
                    assert(total_imgs::<D, P>(ms.take(j)) + k < total_imgs::<D, P>(ms.take(done)));
                    assert(images.rows_view()[i0.len() + total_imgs::<D, P>(ms.take(j)) + k]
                        == imid[i0.len() + total_imgs::<D, P>(ms.take(j)) + k]);
                } else {
                    assert(i0.len() + total_imgs::<D, P>(ms.take(j)) + k == imid.len() + k);
                }
            }
            done = done + 1;
        }
    }
    proof {
        assert(done == n);
        assert(ms.take(n) =~= ms);
        if owned_images_resolve::<D>(p0, i0) {
            let fin_ps = parents.rows_view();
            let fin_is = images.rows_view();
            assert(fin_is =~= i0 + fin_is.skip(i0.len() as int)) by {
                assert forall|idx: int| 0 <= idx < i0.len() implies #[trigger] fin_is[idx]
                    == i0[idx] by {
                    assert(fin_is.take(i0.len() as int)[idx] == fin_is[idx]);
                }
            }
            assert forall|i: int, k: int|
                0 <= i < fin_ps.len() && 0 <= k < D::view_img_ids(fin_ps[i]).len()
                implies spec_find::<DBImage>(
                fin_is,
                #[trigger] D::view_img_ids(#[trigger] fin_ps[i])[k],
            ) is Some by {
                if i < p0.len() {
                    assert(fin_ps[i] == p0[i]) by {
                        assert(fin_ps.take(p0.len() as int)[i] == fin_ps[i]);
                    }
                    assert(spec_find::<DBImage>(i0, D::view_img_ids(p0[i])[k]) is Some);
                    lemma_spec_find_append::<DBImage>(
                        i0,
                        fin_is.skip(i0.len() as int),
                        D::view_img_ids(p0[i])[k],
                    );
                } else {
                    let j = i - p0.len();
                    lemma_total_imgs_snoc::<D, P>(ms, j);
                    lemma_total_imgs_mono::<D, P>(ms, j + 1);
                    assert(fin_ps[p0.len() + j] == fin_ps[i]);
                    assert(D::view_img_ids(fin_ps[i]) == Seq::new(
                        D::spec_img_params(ms[j]).len(),
                        |k: int| (in0 + total_imgs::<D, P>(ms.take(j)) + k) as u64,
                    ));
                    assert(in0 + total_imgs::<D, P>(ms.take(j)) + k < in0 + total_imgs::<D, P>(
                        ms.take(j + 1),
                    ));
                    let id = D::view_img_ids(fin_ps[i])[k];
                    assert(id == (in0 + total_imgs::<D, P>(ms.take(j)) + k) as u64);
                    assert(in0 + total_imgs::<D, P>(ms.take(j)) + k <= u64::MAX);
                    assert(images.rows_view()[i0.len() + total_imgs::<D, P>(ms.take(j)) + k].id
                        == in0 + total_imgs::<D, P>(ms.take(j)) + k);
                    let iv = fin_is[i0.len() as int + total_imgs::<D, P>(ms.take(j)) + k];
                    assert(iv == images.rows_view()[i0.len() + total_imgs::<D, P>(ms.take(j)) + k]);
                    assert(iv.id == id);
                    assert(<DBImage as Record>::view_id(iv) == id);
                    assert(crate::handles::contains_id::<DBImage>(fin_is, id));
                    lemma_spec_find_contains::<DBImage>(fin_is, id);
                }
            }
        }
    }
    Ok(())
}

/// Retrieves every parent together with its owned images: one tuple per
/// parent row, in storage order, each pairing the parent with the image
/// rows its identifier list references, in list order — an empty list
/// included.
///
/// The ownership-link invariant is the correctness precondition: every
/// image identifier a parent holds must reference a stored image row.
pub fn get_multiple_with_images<D: Record>(parents: &Repo<D>, images: &Repo<DBImage>) -> (r: Vec<
    (D, Vec<DBImage>),
>)
    requires
        owned_images_resolve::<D>(parents.rows_view(), images.rows_view()),
    ensures
        r@.len() == parents.rows_view().len(),
        forall|i: int|
            0 <= i < r@.len() ==> (#[trigger] r@[i]).0@ == parents.rows_view()[i] && views_of(
                r@[i].1@,
            ) == images_of::<D>(parents.rows_view()[i], images.rows_view()) && r@[i].1@.len()
                == D::view_img_ids(parents.rows_view()[i]).len(),
{
    let ghost ps = parents.rows_view();
    let ghost imgs = images.rows_view();
    let rows = join_rows(parents, images);
    let grouped = regroup(rows);
    proof {
        lemma_regroup_join::<D>(ps, imgs);
        assert(groups_view::<D>(grouped@) == spec_groups::<D>(ps, imgs));
        assert(groups_view::<D>(grouped@).len() == grouped@.len());
        assert forall|i: int|
            0 <= i < grouped@.len() implies (#[trigger] grouped@[i]).0@ == ps[i] && views_of(
            grouped@[i].1@,
        ) == images_of::<D>(ps[i], imgs) && grouped@[i].1@.len() == D::view_img_ids(
            ps[i],
        ).len() by {
            assert(groups_view::<D>(grouped@)[i] == group_of::<D>(grouped@[i]));
            assert(spec_groups::<D>(ps, imgs)[i] == GroupView {
                parent: ps[i],
                images: images_of::<D>(ps[i], imgs),
            });
            assert(views_of(grouped@[i].1@).len() == grouped@[i].1@.len());
            assert(images_of::<D>(ps[i], imgs).len() == D::view_img_ids(ps[i]).len());
        }
    }
    grouped
}

} // verus!
