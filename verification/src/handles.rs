//! The descriptor traits and the generic repository.
//!
//! [`Record`] is the per-kind metadata every stored kind supplies: storage
//! location, ordered column list, identifier and image-list accessors.
//! [`DbData`] pairs a record kind with its creation-parameter kind and adds
//! the capabilities the write paths need: the bind arity, image extraction,
//! and record construction.
//!
//! [`Repo`] holds the rows of one kind and implements the generic operations
//! once against the descriptor capability set. Its model is the sequence of
//! row views, kept strictly ordered by identifier: identifiers are assigned
//! from a counter that never repeats, so insertion order, identifier order and
//! storage order coincide.

use vstd::prelude::*;

use crate::models::DBImageParams;
use crate::models::ImageParamsView;
use crate::models::RepoError;

verus! {

/// The views of a sequence of viewable values.
pub open spec fn views_of<T: View>(s: Seq<T>) -> Seq<T::V> {
    s.map_values(|x: T| x@)
}

/// The view of an optional record.
pub open spec fn opt_rec_view<T: View>(o: Option<T>) -> Option<T::V> {
    match o {
        Some(x) => Some(x@),
        None => None,
    }
}

/// Per-kind storage metadata: the descriptor capability set every record
/// kind must provide.
pub trait Record: View + Sized {
    /// The identifier of a record, as read from its view.
    spec fn view_id(v: Self::V) -> u64;

    /// The ordered image identifier list of a record; empty for kinds that
    /// do not own images.
    spec fn view_img_ids(v: Self::V) -> Seq<u64>;

    /// The storage location name.
    spec fn spec_table_name() -> Seq<char>;

    /// The ordered column list. Positional placeholders are generated purely
    /// from this list's length.
    spec fn spec_fields() -> Seq<Seq<char>>;

    /// Whether the kind owns an embedded image list.
    spec fn spec_owns_images() -> bool;

    fn table_name() -> (r: String)
        ensures
            r@ == Self::spec_table_name(),
    ;

    fn fields() -> (r: Vec<String>)
        ensures
            r.deep_view() == Self::spec_fields(),
    ;

    fn id(&self) -> (r: u64)
        ensures
            r == Self::view_id(self@),
    ;

    fn img_ids(&self) -> (r: Vec<u64>)
        ensures
            r@ == Self::view_img_ids(self@),
    ;

    fn owns_images() -> (r: bool)
        ensures
            r == Self::spec_owns_images(),
    ;

    /// An owned copy of the record with the same view.
    fn clone_rec(&self) -> (r: Self)
        ensures
            r@ == self@,
    ;

    /// A kind without owned images never carries image identifiers.
    proof fn lemma_no_images_empty(v: Self::V)
        ensures
            !Self::spec_owns_images() ==> Self::view_img_ids(v) == Seq::<u64>::empty(),
    ;
}

/// The write-path capabilities of a record kind for its parameter kind.
pub trait DbData<P: View>: Record {
    /// How many values the kind's bind step attaches to a statement. The
    /// synthesized statements take one positional parameter per declared
    /// column, so a consistent descriptor has `spec_bind_arity() + 1 ==
    /// spec_fields().len()` when an image identifier list is appended by the
    /// attachment coordinator, and `spec_bind_arity() == spec_fields().len()`
    /// otherwise.
    spec fn spec_bind_arity() -> nat;

    /// Whether a record's own fields equal the submitted parameters. The
    /// embedded image payloads are not part of the record and are not
    /// compared.
    spec fn spec_params_match(p: P::V, v: Self::V) -> bool;

    /// The embedded image payload list of a parameter value.
    spec fn spec_img_params(p: P::V) -> Seq<ImageParamsView>;

    /// A parameter value after its image payloads have been extracted.
    spec fn spec_strip_images(p: P::V) -> P::V;

    fn bind_arity() -> (r: usize)
        ensures
            r as nat == Self::spec_bind_arity(),
    ;

    /// Extracts and removes the embedded image payload list; kinds without
    /// owned images yield nothing and leave the parameters untouched.
    fn take_images(params: &mut P) -> (r: Option<Vec<DBImageParams>>)
        ensures
            Self::spec_owns_images() ==> match r {
                Some(imgs) => views_of(imgs@) == Self::spec_img_params(old(params)@)
                    && final(params)@ == Self::spec_strip_images(old(params)@),
                None => false,
            },
            !Self::spec_owns_images() ==> r is None && *final(params) == *old(params),
    ;

    /// Builds the stored record from an assigned identifier, an image
    /// identifier list, and the parameters, field for field.
    fn create(id: u64, img_ids: Vec<u64>, params: P) -> (r: Self)
        ensures
            Self::view_id(r@) == id,
            Self::spec_owns_images() ==> Self::view_img_ids(r@) == img_ids@,
            !Self::spec_owns_images() ==> Self::view_img_ids(r@) == Seq::<u64>::empty(),
            Self::spec_params_match(params@, r@),
    ;

    /// Extracting the image payloads does not change whether the remaining
    /// parameter fields match a record.
    proof fn lemma_strip_preserves_match(p: P::V, v: Self::V)
        ensures
            Self::spec_params_match(Self::spec_strip_images(p), v)
                == Self::spec_params_match(p, v),
    ;
}

/// Whether a row sequence is strictly ordered by identifier with every
/// identifier below the allocation counter.
pub open spec fn rows_wf<D: Record>(s: Seq<D::V>, next: u64) -> bool {
    &&& forall|i: int, j: int|
        0 <= i < j < s.len() ==> D::view_id(#[trigger] s[i]) < D::view_id(#[trigger] s[j])
    &&& forall|i: int| 0 <= i < s.len() ==> D::view_id(#[trigger] s[i]) < next
}

/// Whether some row carries the given identifier.
pub open spec fn contains_id<D: Record>(s: Seq<D::V>, id: u64) -> bool {
    exists|i: int| 0 <= i < s.len() && D::view_id(#[trigger] s[i]) == id
}

/// The first row carrying the given identifier, if any.
pub open spec fn spec_find<D: Record>(s: Seq<D::V>, id: u64) -> Option<D::V>
    decreases s.len(),
{
    if s.len() == 0 {
        None
    } else if D::view_id(s.first()) == id {
        Some(s.first())
    } else {
        spec_find::<D>(s.drop_first(), id)
    }
}

/// What a bulk delete does to a row sequence: it removes every row. The pair
/// is (removed rows, remaining rows).
pub open spec fn spec_delete_many<D: Record>(s: Seq<D::V>) -> (Seq<D::V>, Seq<D::V>) {
    (s, Seq::<D::V>::empty())
}

/// `spec_find` returns the row at the first matching index.
pub proof fn lemma_spec_find_first<D: Record>(s: Seq<D::V>, id: u64, i: int)
    requires
        0 <= i < s.len(),
        D::view_id(s[i]) == id,
        forall|k: int| 0 <= k < i ==> D::view_id(#[trigger] s[k]) != id,
    ensures
        spec_find::<D>(s, id) == Some(s[i]),
    decreases i,
{
    if i == 0 {
        assert(s.first() == s[0]);
    } else {
        assert(D::view_id(s.first()) != id) by {
            assert(D::view_id(s[0]) != id);
        }
        assert forall|k: int| 0 <= k < i - 1 implies D::view_id(#[trigger] s.drop_first()[k]) != id by {
            assert(s.drop_first()[k] == s[k + 1]);
        }
        lemma_spec_find_first::<D>(s.drop_first(), id, i - 1);
        assert(s.drop_first()[i - 1] == s[i]);
    }
}

/// `spec_find` returns nothing exactly when no row matches.
pub proof fn lemma_spec_find_none<D: Record>(s: Seq<D::V>, id: u64)
    requires
        !contains_id::<D>(s, id),
    ensures
        spec_find::<D>(s, id) is None,
    decreases s.len(),
{
    if s.len() > 0 {
        assert(D::view_id(s.first()) != id) by {
            assert(s[0] == s.first());
        }
        assert forall|i: int| 0 <= i < s.drop_first().len()
            implies D::view_id(#[trigger] s.drop_first()[i]) != id by {
            assert(s.drop_first()[i] == s[i + 1]);
        }
        lemma_spec_find_none::<D>(s.drop_first(), id);
    }
}

/// The registration-time assertion on a descriptor: whether its bind step
/// covers the synthesized columns — every declared column on the generic
/// paths, every column but the appended image identifier list for a kind
/// inserted through the attachment coordinator. A kind for which this does
/// not hold must override its write paths rather than use the template.
pub fn descriptor_consistent<D, P: View>() -> (r: bool) where D: DbData<P>
    ensures
        r == (D::spec_bind_arity() + (if D::spec_owns_images() {
            1nat
        } else {
            0nat
        }) == D::spec_fields().len()),
{
    let arity = D::bind_arity();
    let fields = D::fields();
    let n = fields.len();
    proof {
        assert(fields.deep_view().len() == fields@.len());
    }
    if D::owns_images() {
        n >= 1 && arity == n - 1
    } else {
        arity == n
    }
}

/// Whether an identifier stands in a list.
pub fn id_in_list(ids: &Vec<u64>, x: u64) -> (r: bool)
    ensures
        r == ids@.contains(x),
{
    let mut i: usize = 0;
    while i < ids.len()
        invariant
            i <= ids.len(),
            forall|k: int| 0 <= k < i ==> ids@[k] != x,
        decreases ids.len() - i,
    {
        if ids[i] == x {
            proof {
                assert(ids@[i as int] == x);
            }
            return true;
        }
        i = i + 1;
    }
    proof {
        if ids@.contains(x) {
            let j = choose|j: int| 0 <= j < ids@.len() && ids@[j] == x;
            assert(false);
        }
    }
    false
}

/// Every element of a filtered sequence stands at some index of the
/// original.
pub proof fn lemma_filter_member<V>(s: Seq<V>, pred: spec_fn(V) -> bool, i: int)
    requires
        0 <= i < s.filter(pred).len(),
    ensures
        exists|j: int| 0 <= j < s.len() && s.filter(pred)[i] == #[trigger] s[j],
    decreases s.len(),
{
    reveal(Seq::filter);
    if s.len() > 0 {
        let fd = s.drop_last().filter(pred);
        if pred(s.last()) && i == fd.len() {
            assert(s.filter(pred)[i] == s[s.len() - 1]);
        } else {
            lemma_filter_member::<V>(s.drop_last(), pred, i);
            let j = choose|j: int| 0 <= j < s.drop_last().len() && s.drop_last().filter(pred)[i]
                == #[trigger] s.drop_last()[j];
            assert(s.filter(pred)[i] == s[j]);
        }
    }
}

/// Filtering ordered rows keeps them ordered and below the counter.
pub proof fn lemma_filter_rows_wf<D: Record>(s: Seq<D::V>, pred: spec_fn(D::V) -> bool, next: u64)
    requires
        rows_wf::<D>(s, next),
    ensures
        rows_wf::<D>(s.filter(pred), next),
    decreases s.len(),
{
    reveal(Seq::filter);
    if s.len() > 0 {
        let d = s.drop_last();
        assert forall|i: int| 0 <= i < d.len() implies D::view_id(#[trigger] d[i]) < next by {
            assert(d[i] == s[i]);
        }
        assert forall|i: int, j: int|
            0 <= i < j < d.len() implies D::view_id(#[trigger] d[i]) < D::view_id(
            #[trigger] d[j],
        ) by {
            assert(d[i] == s[i]);
            assert(d[j] == s[j]);
        }
        lemma_filter_rows_wf::<D>(d, pred, next);
        let fd = d.filter(pred);
        if pred(s.last()) {
            let f = s.filter(pred);
            assert(f == fd.push(s.last()));
            assert forall|i: int, j: int|
                0 <= i < j < f.len() implies D::view_id(#[trigger] f[i]) < D::view_id(
                #[trigger] f[j],
            ) by {
                if j < fd.len() {
                    assert(f[i] == fd[i]);
                    assert(f[j] == fd[j]);
                } else {
                    assert(f[j] == s.last());
                    assert(f[i] == fd[i]);
                    lemma_filter_member::<D::V>(d, pred, i);
                    let w = choose|w: int| 0 <= w < d.len() && fd[i] == #[trigger] d[w];
                    assert(d[w] == s[w]);
                    assert(D::view_id(s[w]) < D::view_id(s[s.len() - 1]));
                }
            }
            assert forall|i: int| 0 <= i < f.len() implies D::view_id(#[trigger] f[i]) < next by {
                if i < fd.len() {
                    assert(f[i] == fd[i]);
                } else {
                    assert(f[i] == s.last());
                    assert(s.last() == s[s.len() - 1]);
                }
            }
        }
    }
}

/// Under the store invariant, a lookup finds the row at any index carrying
/// the identifier.
pub proof fn lemma_wf_find<D: Record>(s: Seq<D::V>, next: u64, id: u64, i: int)
    requires
        rows_wf::<D>(s, next),
        0 <= i < s.len(),
        D::view_id(s[i]) == id,
    ensures
        spec_find::<D>(s, id) == Some(s[i]),
{
    assert forall|k: int| 0 <= k < i implies D::view_id(#[trigger] s[k]) != id by {
        assert(D::view_id(s[k]) < D::view_id(s[i]));
    }
    lemma_spec_find_first::<D>(s, id, i);
}

/// A row is found exactly when some row carries the identifier, and what is
/// found carries it.
pub proof fn lemma_spec_find_contains<D: Record>(s: Seq<D::V>, id: u64)
    ensures
        (spec_find::<D>(s, id) is Some) == contains_id::<D>(s, id),
        spec_find::<D>(s, id) matches Some(v) ==> D::view_id(v) == id,
    decreases s.len(),
{
    if s.len() == 0 {
        assert(!contains_id::<D>(s, id));
    } else if D::view_id(s.first()) == id {
        assert(s[0] == s.first());
        assert(contains_id::<D>(s, id));
    } else {
        lemma_spec_find_contains::<D>(s.drop_first(), id);
        if contains_id::<D>(s.drop_first(), id) {
            let i = choose|i: int|
                0 <= i < s.drop_first().len() && D::view_id(#[trigger] s.drop_first()[i]) == id;
            assert(s[i + 1] == s.drop_first()[i]);
            assert(contains_id::<D>(s, id));
        }
        if contains_id::<D>(s, id) {
            let i = choose|i: int| 0 <= i < s.len() && D::view_id(#[trigger] s[i]) == id;
            assert(i != 0);
            assert(s.drop_first()[i - 1] == s[i]);
            assert(contains_id::<D>(s.drop_first(), id));
        }
    }
}

/// Appending rows does not change what an identifier that already resolves
/// resolves to.
pub proof fn lemma_spec_find_append<D: Record>(s: Seq<D::V>, t: Seq<D::V>, id: u64)
    requires
        spec_find::<D>(s, id) is Some,
    ensures
        spec_find::<D>(s + t, id) == spec_find::<D>(s, id),
    decreases s.len(),
{
    assert(s.len() > 0) by {
        if s.len() == 0 {
            assert(spec_find::<D>(s, id) is None);
        }
    }
    assert((s + t).first() == s.first());
    if D::view_id(s.first()) == id {
    } else {
        assert((s + t).drop_first() =~= s.drop_first() + t);
        lemma_spec_find_append::<D>(s.drop_first(), t, id);
    }
}

/// Round trip: appending a row under a fresh identifier makes a lookup of
/// that identifier return exactly that row.
pub proof fn lemma_insert_round_trip<D: Record>(s: Seq<D::V>, next: u64, v: D::V)
    requires
        rows_wf::<D>(s, next),
        D::view_id(v) == next,
    ensures
        spec_find::<D>(s.push(v), D::view_id(v)) == Some(v),
{
    let t = s.push(v);
    assert forall|k: int| 0 <= k < s.len() implies D::view_id(#[trigger] t[k]) != next by {
        assert(t[k] == s[k]);
    }
    lemma_spec_find_first::<D>(t, next, s.len() as int);
    assert(t[s.len() as int] == v);
}

/// Idempotent bulk delete: after one bulk delete has emptied the rows, a
/// second one removes zero rows and leaves the rows empty.
pub proof fn lemma_delete_many_idempotent<D: Record>(s: Seq<D::V>)
    ensures
        spec_delete_many::<D>(spec_delete_many::<D>(s).1).0.len() == 0,
        spec_delete_many::<D>(spec_delete_many::<D>(s).1).1.len() == 0,
{
}

/// The rows of one record kind, with the identifier allocation counter.
pub struct Repo<D> {
    rows: Vec<D>,
    next_id: u64,
}

impl<D: Record> Repo<D> {
    /// The model: the sequence of row views, in storage order.
    pub closed spec fn rows_view(&self) -> Seq<D::V> {
        views_of(self.rows@)
    }

    /// The next identifier the store will assign.
    pub closed spec fn spec_next_id(&self) -> u64 {
        self.next_id
    }

    /// The store invariant: rows strictly ordered by identifier, all below
    /// the allocation counter.
    pub open spec fn wf(&self) -> bool {
        rows_wf::<D>(self.rows_view(), self.spec_next_id())
    }

    /// An empty store for one record kind.
    pub fn new() -> (r: Self)
        ensures
            r.rows_view() == Seq::<D::V>::empty(),
            r.spec_next_id() == 1u64,
            r.wf(),
    {
        let r = Repo { rows: Vec::new(), next_id: 1 };
        proof {
            assert(r.rows_view() =~= Seq::<D::V>::empty());
        }
        r
    }

    /// The matching record, or nothing: "not found" is an absence here, not
    /// an error.
    pub fn get_single_by(&self, id: u64) -> (r: Option<D>)
        ensures
            opt_rec_view(r) == spec_find::<D>(self.rows_view(), id),
            r is Some <==> contains_id::<D>(self.rows_view(), id),
    {
        let ghost s = self.rows_view();
        let mut i: usize = 0;
        while i < self.rows.len()
            invariant
                i <= self.rows.len(),
                s == self.rows_view(),
                s.len() == self.rows.len(),
                forall|k: int| 0 <= k < i ==> D::view_id(#[trigger] s[k]) != id,
            decreases self.rows.len() - i,
        {
            proof {
                assert(s[i as int] == self.rows@[i as int]@);
            }
            if self.rows[i].id() == id {
                let rec = self.rows[i].clone_rec();
                proof {
                    lemma_spec_find_first::<D>(s, id, i as int);
                }
                return Some(rec);
            }
            i = i + 1;
        }
        proof {
            lemma_spec_find_none::<D>(s, id);
        }
        None
    }

    /// All records, in storage order.
    pub fn get_multiple(&self) -> (r: Vec<D>)
        ensures
            views_of(r@) == self.rows_view(),
    {
        let mut out: Vec<D> = Vec::new();
        let mut i: usize = 0;
        while i < self.rows.len()
            invariant
                i <= self.rows.len(),
                views_of(out@) == self.rows_view().take(i as int),
            decreases self.rows.len() - i,
        {
            let c = self.rows[i].clone_rec();
            proof {
                assert(c@ == self.rows@[i as int]@);
            }
            let ghost prev = out@;
            out.push(c);
            proof {
                assert(views_of(prev).len() == prev.len());
                assert(views_of(prev) == self.rows_view().take(i as int));
                assert(prev.len() == i);
                assert forall|k: int| 0 <= k < out@.len() implies #[trigger] views_of(out@)[k]
                    == self.rows_view().take(i as int + 1)[k] by {
                    assert(views_of(out@)[k] == out@[k]@);
                    if k < i {
                        assert(out@[k] == prev[k]);
                        assert(views_of(prev)[k] == prev[k]@);
                    } else {
                        assert(out@[k] == c);
                        assert(self.rows_view()[k] == self.rows@[k]@);
                    }
                }
                assert(views_of(out@) =~= self.rows_view().take(i as int + 1));
            }
            i = i + 1;
        }
        proof {
            assert(self.rows_view().take(self.rows.len() as int) =~= self.rows_view());
        }
        out
    }

    /// The next identifier the store will assign to a created row.
    pub fn next_id(&self) -> (r: u64)
        ensures
            r == self.spec_next_id(),
    {
        self.next_id
    }

    /// The store's row-creation primitive: appends a record that carries
    /// the identifier the store is about to assign, as an overriding insert
    /// path materializes it, and advances the identifier counter.
    pub(crate) fn insert_row(&mut self, rec: D)
        requires
            old(self).wf(),
            old(self).spec_next_id() < u64::MAX,
            D::view_id(rec@) == old(self).spec_next_id(),
        ensures
            final(self).wf(),
            final(self).spec_next_id() == old(self).spec_next_id() + 1,
            final(self).rows_view() == old(self).rows_view().push(rec@),
    {
        let ghost prev = self.rows@;
        let ghost v = rec@;
        self.rows.push(rec);
        self.next_id = self.next_id + 1;
        proof {
            assert forall|k: int| 0 <= k < self.rows@.len() implies #[trigger] self.rows_view()[k]
                == views_of(prev).push(v)[k] by {
                assert(self.rows_view()[k] == self.rows@[k]@);
                if k < prev.len() {
                    assert(self.rows@[k] == prev[k]);
                    assert(views_of(prev)[k] == prev[k]@);
                }
            }
            assert(self.rows_view() =~= views_of(prev).push(v));
        }
    }

    /// The store's row-replacement primitive: replaces the row whose
    /// identifier the record carries, as an overriding update path does;
    /// fails with `Storage` exactly when no row carries that identifier.
    pub(crate) fn replace_row(&mut self, rec: D) -> (r: Result<(), RepoError>)
        requires
            old(self).wf(),
        ensures
            final(self).wf(),
            final(self).spec_next_id() == old(self).spec_next_id(),
            match r {
                Ok(_) => exists|i: int|
                    0 <= i < old(self).rows_view().len()
                        && D::view_id(#[trigger] old(self).rows_view()[i]) == D::view_id(rec@)
                        && final(self).rows_view() == old(self).rows_view().update(i, rec@),
                Err(e) => e == RepoError::Storage
                    && !contains_id::<D>(old(self).rows_view(), D::view_id(rec@))
                    && final(self).rows_view() == old(self).rows_view(),
            },
            r is Err <==> !contains_id::<D>(old(self).rows_view(), D::view_id(rec@)),
    {
        let ghost s = self.rows_view();
        let ghost v = rec@;
        let id = rec.id();
        let mut i: usize = 0;
        while i < self.rows.len()
            invariant
                *self == *old(self),
                old(self).wf(),
                i <= self.rows.len(),
                s == self.rows_view(),
                s.len() == self.rows.len(),
                v == rec@,
                id == D::view_id(v),
                forall|k: int| 0 <= k < i ==> D::view_id(#[trigger] s[k]) != id,
            decreases self.rows.len() - i,
        {
            proof {
                assert(s[i as int] == self.rows@[i as int]@);
            }
            if self.rows[i].id() == id {
                let ghost rows_start = self.rows@;
                self.rows[i] = rec;
                proof {
                    assert(self.rows@ == rows_start.update(i as int, rec));
                    assert forall|k: int| 0 <= k < self.rows@.len()
                        implies #[trigger] self.rows_view()[k] == s.update(i as int, v)[k] by {
                        assert(self.rows_view()[k] == self.rows@[k]@);
                        if k != i {
                            assert(self.rows@[k] == rows_start[k]);
                            assert(s[k] == rows_start[k]@);
                        }
                    }
                    assert(self.rows_view() =~= s.update(i as int, v));
                    assert forall|a: int, b: int|
                        0 <= a < b < self.rows_view().len() implies D::view_id(
                        #[trigger] self.rows_view()[a],
                    ) < D::view_id(#[trigger] self.rows_view()[b]) by {
                        assert(D::view_id(self.rows_view()[a]) == D::view_id(s[a]));
                        assert(D::view_id(self.rows_view()[b]) == D::view_id(s[b]));
                    }
                }
                return Ok(());
            }
            i = i + 1;
        }
        Err(RepoError::Storage)
    }

    /// Deletes every row of the kind and returns the removed rows. Repeated
    /// calls on an empty store succeed and remove nothing; the identifier
    /// counter is not reset.
    pub fn delete_many(&mut self) -> (r: Vec<D>)
        ensures
            (views_of(r@), final(self).rows_view()) == spec_delete_many::<D>(old(self).rows_view()),
            final(self).spec_next_id() == old(self).spec_next_id(),
            old(self).wf() ==> final(self).wf(),
    {
        let mut out: Vec<D> = Vec::new();
        core::mem::swap(&mut self.rows, &mut out);
        proof {
            assert(self.rows_view() =~= Seq::<D::V>::empty());
        }
        out
    }

    /// Deletes the row with the given identifier and returns it; fails with
    /// `NotFound` exactly when no row carries that identifier.
    pub fn delete_one_with_id(&mut self, id: u64) -> (r: Result<D, RepoError>)
        ensures
            final(self).spec_next_id() == old(self).spec_next_id(),
            old(self).wf() ==> final(self).wf(),
            match r {
                Ok(rec) => exists|i: int|
                    0 <= i < old(self).rows_view().len()
                        && D::view_id(#[trigger] old(self).rows_view()[i]) == id
                        && rec@ == old(self).rows_view()[i]
                        && final(self).rows_view() == old(self).rows_view().remove(i),
                Err(e) => e == RepoError::NotFound
                    && !contains_id::<D>(old(self).rows_view(), id)
                    && final(self).rows_view() == old(self).rows_view(),
            },
            r is Err <==> !contains_id::<D>(old(self).rows_view(), id),
    {
        let ghost s = self.rows_view();
        let mut i: usize = 0;
        while i < self.rows.len()
            invariant
                *self == *old(self),
                i <= self.rows.len(),
                s == self.rows_view(),
                s.len() == self.rows.len(),
                forall|k: int| 0 <= k < i ==> D::view_id(#[trigger] s[k]) != id,
            decreases self.rows.len() - i,
        {
            proof {
                assert(s[i as int] == self.rows@[i as int]@);
            }
            if self.rows[i].id() == id {
                let ghost rows_start = self.rows@;
                let rec = self.rows.remove(i);
                proof {
                    assert forall|k: int| 0 <= k < self.rows@.len()
                        implies #[trigger] self.rows_view()[k] == s.remove(i as int)[k] by {
                        assert(self.rows_view()[k] == self.rows@[k]@);
                        if k < i {
                            assert(self.rows@[k] == rows_start[k]);
                            assert(s[k] == rows_start[k]@);
                        } else {
                            assert(self.rows@[k] == rows_start[k + 1]);
                            assert(s[k + 1] == rows_start[k + 1]@);
                        }
                    }
                    assert(self.rows_view() =~= s.remove(i as int));
                    if old(self).wf() {
                        assert forall|a: int, b: int|
                            0 <= a < b < self.rows_view().len() implies D::view_id(
                            #[trigger] self.rows_view()[a],
                        ) < D::view_id(#[trigger] self.rows_view()[b]) by {
                            assert(self.rows_view()[a] == s.remove(i as int)[a]);
                            assert(self.rows_view()[b] == s.remove(i as int)[b]);
                        }
                    }
                }
                return Ok(rec);
            }
            i = i + 1;
        }
        Err(RepoError::NotFound)
    }

    /// Deletes the given record's row by its identifier; fails with
    /// `NotFound` exactly when no row carries the record's identifier.
    pub fn delete_one(&mut self, rec: &D) -> (r: Result<D, RepoError>)
        ensures
            final(self).spec_next_id() == old(self).spec_next_id(),
            old(self).wf() ==> final(self).wf(),
            match r {
                Ok(removed) => exists|i: int|
                    0 <= i < old(self).rows_view().len()
                        && D::view_id(#[trigger] old(self).rows_view()[i]) == D::view_id(rec@)
                        && removed@ == old(self).rows_view()[i]
                        && final(self).rows_view() == old(self).rows_view().remove(i),
                Err(e) => e == RepoError::NotFound
                    && !contains_id::<D>(old(self).rows_view(), D::view_id(rec@))
                    && final(self).rows_view() == old(self).rows_view(),
            },
            r is Err <==> !contains_id::<D>(old(self).rows_view(), D::view_id(rec@)),
    {
        let id = rec.id();
        self.delete_one_with_id(id)
    }

    /// Deletes every row whose identifier stands in the given list and
    /// returns the removed rows, in storage order; rows whose identifier is
    /// not listed stay, in storage order.
    pub fn delete_many_by_ids(&mut self, ids: &Vec<u64>) -> (r: Vec<D>)
        ensures
            final(self).spec_next_id() == old(self).spec_next_id(),
            old(self).wf() ==> final(self).wf(),
            views_of(r@) == old(self).rows_view().filter(
                |v: D::V| ids@.contains(D::view_id(v)),
            ),
            final(self).rows_view() == old(self).rows_view().filter(
                |v: D::V| !ids@.contains(D::view_id(v)),
            ),
    {
        let ghost s = self.rows_view();
        let ghost keep_pred = |v: D::V| !ids@.contains(D::view_id(v));
        let ghost drop_pred = |v: D::V| ids@.contains(D::view_id(v));
        let mut kept: Vec<D> = Vec::new();
        let mut removed: Vec<D> = Vec::new();
        let mut i: usize = 0;
        while i < self.rows.len()
            invariant
                *self == *old(self),
                i <= self.rows.len(),
                s == self.rows_view(),
                s.len() == self.rows.len(),
                keep_pred == (|v: D::V| !ids@.contains(D::view_id(v))),
                drop_pred == (|v: D::V| ids@.contains(D::view_id(v))),
                views_of(kept@) == s.take(i as int).filter(keep_pred),
                views_of(removed@) == s.take(i as int).filter(drop_pred),
            decreases self.rows.len() - i,
        {
            proof {
                assert(s[i as int] == self.rows@[i as int]@);
            }
            let listed = id_in_list(ids, self.rows[i].id());
            let copy = self.rows[i].clone_rec();
            proof {
                reveal(Seq::filter);
                assert(s.take(i + 1).drop_last() =~= s.take(i as int));
                assert(s.take(i + 1).last() == s[i as int]);
            }
            if listed {
                let ghost prev = removed@;
                removed.push(copy);
                proof {
                    assert forall|k: int| 0 <= k < removed@.len()
                        implies #[trigger] views_of(removed@)[k] == s.take(i + 1).filter(
                        drop_pred,
                    )[k] by {
                        if k < prev.len() {
                            assert(removed@[k] == prev[k]);
                            assert(views_of(prev)[k] == prev[k]@);
                        } else {
                            assert(removed@[k]@ == s[i as int]);
                        }
                    }
                    assert(views_of(removed@) =~= s.take(i + 1).filter(drop_pred));
                    assert(s.take(i + 1).filter(keep_pred) == s.take(i as int).filter(keep_pred));
                }
            } else {
                let ghost prev = kept@;
                kept.push(copy);
                proof {
                    assert forall|k: int| 0 <= k < kept@.len()
                        implies #[trigger] views_of(kept@)[k] == s.take(i + 1).filter(
                        keep_pred,
                    )[k] by {
                        if k < prev.len() {
                            assert(kept@[k] == prev[k]);
                            assert(views_of(prev)[k] == prev[k]@);
                        } else {
                            assert(kept@[k]@ == s[i as int]);
                        }
                    }
                    assert(views_of(kept@) =~= s.take(i + 1).filter(keep_pred));
                    assert(s.take(i + 1).filter(drop_pred) == s.take(i as int).filter(drop_pred));
                }
            }
            i = i + 1;
        }
        proof {
            assert(s.take(s.len() as int) =~= s);
        }
        self.rows = kept;
        proof {
            if old(self).wf() {
                lemma_filter_rows_wf::<D>(s, keep_pred, self.next_id);
            }
        }
        removed
    }

    /// Inserts one record built from the parameters under a fresh
    /// identifier and returns the created record.
    ///
    /// This is the generic insert path: it takes one positional value per
    /// declared column, so it demands a descriptor whose bind arity covers
    /// the whole column list; kinds whose column list ends with an appended
    /// image identifier list go through the attachment coordinator instead.
    pub fn insert_one<P: View>(&mut self, params: P) -> (r: Result<D, RepoError>) where
        D: DbData<P>
        requires
            old(self).wf(),
            old(self).spec_next_id() < u64::MAX,
            D::spec_bind_arity() == D::spec_fields().len(),
        ensures
            final(self).wf(),
            final(self).spec_next_id() == old(self).spec_next_id() + 1,
            r is Ok,
            match r {
                Ok(rec) => D::view_id(rec@) == old(self).spec_next_id()
                    && D::view_img_ids(rec@) == Seq::<u64>::empty()
                    && D::spec_params_match(params@, rec@)
                    && final(self).rows_view() == old(self).rows_view().push(rec@),
                Err(_) => false,
            },
    {
        let id = self.next_id;
        let rec = D::create(id, Vec::new(), params);
        let out = rec.clone_rec();
        let ghost prev = self.rows@;
        self.rows.push(rec);
        self.next_id = id + 1;
        proof {
            assert forall|k: int| 0 <= k < self.rows@.len() implies #[trigger] self.rows_view()[k]
                == views_of(prev).push(rec@)[k] by {
                assert(self.rows_view()[k] == self.rows@[k]@);
                if k < prev.len() {
                    assert(self.rows@[k] == prev[k]);
                    assert(views_of(prev)[k] == prev[k]@);
                }
            }
            assert(self.rows_view() =~= views_of(prev).push(rec@));
        }
        Ok(out)
    }

    /// Inserts one record built from the parameters under a fresh
    /// identifier, binding the collected image identifier list as the
    /// additional value appended after the kind's own columns.
    ///
    /// This is the parent insert path of the attachment coordinator: it
    /// demands a descriptor whose bind arity leaves exactly the appended
    /// image identifier list uncovered.
    pub fn insert_with_img_ids<P: View>(&mut self, params: P, img_ids: Vec<u64>) -> (r: Result<
        D,
        RepoError,
    >) where D: DbData<P>
        requires
            old(self).wf(),
            old(self).spec_next_id() < u64::MAX,
            D::spec_owns_images(),
            D::spec_bind_arity() + 1 == D::spec_fields().len(),
        ensures
            final(self).wf(),
            final(self).spec_next_id() == old(self).spec_next_id() + 1,
            r is Ok,
            match r {
                Ok(rec) => D::view_id(rec@) == old(self).spec_next_id()
                    && D::view_img_ids(rec@) == img_ids@
                    && D::spec_params_match(params@, rec@)
                    && final(self).rows_view() == old(self).rows_view().push(rec@),
                Err(_) => false,
            },
    {
        let id = self.next_id;
        let rec = D::create(id, img_ids, params);
        let out = rec.clone_rec();
        let ghost prev = self.rows@;
        self.rows.push(rec);
        self.next_id = id + 1;
        proof {
            assert forall|k: int| 0 <= k < self.rows@.len() implies #[trigger] self.rows_view()[k]
                == views_of(prev).push(rec@)[k] by {
                assert(self.rows_view()[k] == self.rows@[k]@);
                if k < prev.len() {
                    assert(self.rows@[k] == prev[k]);
                    assert(views_of(prev)[k] == prev[k]@);
                }
            }
            assert(self.rows_view() =~= views_of(prev).push(rec@));
        }
        Ok(out)
    }

    /// Updates the row with the given identifier: every declared field is
    /// set from the parameters; the identifier and the owned image list are
    /// kept. Fails with `Storage` exactly when no row carries the
    /// identifier, since the synthesized statement then affects zero rows
    /// and returns none.
    pub fn update_one<P: View>(&mut self, params: P, id: u64) -> (r: Result<
        (),
        RepoError,
    >) where D: DbData<P>
        requires
            old(self).wf(),
            D::spec_bind_arity() == D::spec_fields().len(),
        ensures
            final(self).wf(),
            final(self).spec_next_id() == old(self).spec_next_id(),
            match r {
                Ok(_) => exists|i: int|
                    0 <= i < old(self).rows_view().len()
                        && D::view_id(#[trigger] old(self).rows_view()[i]) == id
                        && final(self).rows_view().len() == old(self).rows_view().len()
                        && (forall|k: int|
                            0 <= k < old(self).rows_view().len() && k != i
                                ==> #[trigger] final(self).rows_view()[k] == old(self).rows_view()[k])
                        && D::view_id(final(self).rows_view()[i]) == id
                        && D::view_img_ids(final(self).rows_view()[i])
                            == D::view_img_ids(old(self).rows_view()[i])
                        && D::spec_params_match(params@, final(self).rows_view()[i]),
                Err(e) => e == RepoError::Storage
                    && !contains_id::<D>(old(self).rows_view(), id)
                    && final(self).rows_view() == old(self).rows_view(),
            },
            r is Err <==> !contains_id::<D>(old(self).rows_view(), id),
    {
        let ghost s = self.rows_view();
        let mut i: usize = 0;
        while i < self.rows.len()
            invariant
                *self == *old(self),
                old(self).wf(),
                i <= self.rows.len(),
                s == self.rows_view(),
                s.len() == self.rows.len(),
                forall|k: int| 0 <= k < i ==> D::view_id(#[trigger] s[k]) != id,
            decreases self.rows.len() - i,
        {
            proof {
                assert(s[i as int] == self.rows@[i as int]@);
            }
            if self.rows[i].id() == id {
                let kept_ids = self.rows[i].img_ids();
                let ghost old_ids = D::view_img_ids(s[i as int]);
                let rec = D::create(id, kept_ids, params);
                let ghost rows_start = self.rows@;
                self.rows[i] = rec;
                proof {
                    D::lemma_no_images_empty(s[i as int]);
                    assert(self.rows@ == rows_start.update(i as int, rec));
                    assert forall|k: int| 0 <= k < self.rows@.len() && k != i
                        implies #[trigger] self.rows_view()[k] == s[k] by {
                        assert(self.rows_view()[k] == self.rows@[k]@);
                        assert(self.rows@[k] == rows_start[k]);
                        assert(s[k] == rows_start[k]@);
                    }
                    assert(self.rows_view()[i as int] == rec@);
                    assert(D::view_img_ids(rec@) == old_ids);
                    assert forall|k: int| 0 <= k < self.rows@.len()
                        implies D::view_id(#[trigger] self.rows_view()[k]) == D::view_id(s[k]) by {
                        if k != i {
                            assert(self.rows_view()[k] == s[k]);
                        }
                    }
                    assert(self.rows_view().len() == s.len());
                    assert forall|a: int, b: int|
                        0 <= a < b < self.rows_view().len() implies D::view_id(
                        #[trigger] self.rows_view()[a],
                    ) < D::view_id(#[trigger] self.rows_view()[b]) by {
                        assert(D::view_id(self.rows_view()[a]) == D::view_id(s[a]));
                        assert(D::view_id(self.rows_view()[b]) == D::view_id(s[b]));
                    }
                }
                return Ok(());
            }
            i = i + 1;
        }
        Err(RepoError::Storage)
    }
}

} // verus!
