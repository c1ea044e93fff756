//! The overriding insert and update paths of the support resource kind.
//!
//! A resource's parameters may embed an address payload that is
//! deduplicated against the address rows — looked up by every field, or
//! inserted when no stored row matches — and a resource owns images, so its
//! insert binds a generated image identifier list that its declared column
//! list does not carry. Both needs take the kind off the generic template:
//! these paths override it entirely, as the designed escape hatch.

use vstd::prelude::*;

use crate::attach::insert_images;
use crate::handles::DbData;
use crate::handles::Record;
use crate::handles::Repo;
use crate::handles::contains_id;
use crate::handles::lemma_wf_find;
use crate::handles::spec_find;
use crate::handles::views_of;
use crate::models::AddressParamsView;
use crate::models::AddressView;
use crate::models::DBAddress;
use crate::models::DBAddressParams;
use crate::models::DBImage;
use crate::models::DBResource;
use crate::models::DBResourceParams;
use crate::models::RepoError;
use crate::models::ResourceView;
use crate::models::opt_str_view;

verus! {

/// Whether an address row matches address parameters on every field.
pub open spec fn addr_matches(p: AddressParamsView, v: AddressView) -> bool {
    <DBAddress as DbData<DBAddressParams>>::spec_params_match(p, v)
}

/// Whether the address rows hold a match for the parameters.
pub open spec fn has_addr_match(p: AddressParamsView, s: Seq<AddressView>) -> bool {
    exists|i: int| 0 <= i < s.len() && addr_matches(p, #[trigger] s[i])
}

/// How an optional address payload is resolved against the address rows:
/// no payload resolves to no reference and leaves the rows alone; a payload
/// matching a stored row resolves to that row's identifier; any other
/// payload is inserted first and resolved to the created row's identifier.
pub open spec fn spec_resolve_address(
    p: Option<AddressParamsView>,
    a0: Seq<AddressView>,
    an0: u64,
    a1: Seq<AddressView>,
    an1: u64,
    aid: Option<u64>,
) -> bool {
    match p {
        None => a1 == a0 && an1 == an0 && aid is None,
        Some(ap) => if has_addr_match(ap, a0) {
            &&& a1 == a0
            &&& an1 == an0
            &&& match aid {
                Some(x) => exists|i: int|
                    0 <= i < a0.len() && addr_matches(ap, #[trigger] a0[i]) && a0[i].id == x,
                None => false,
            }
        } else {
            &&& a1 == a0.push(
                AddressView {
                    id: an0,
                    city: ap.city,
                    state: ap.state,
                    zip: ap.zip,
                    line_1: ap.line_1,
                    line_2: ap.line_2,
                },
            )
            &&& an1 == an0 + 1
            &&& aid == Some(an0)
        },
    }
}

/// Compares two optional strings by their text.
fn opt_str_eq(a: &Option<String>, b: &Option<String>) -> (r: bool)
    ensures
        r == (opt_str_view(*a) == opt_str_view(*b)),
{
    match (a, b) {
        (Some(x), Some(y)) => x.eq(y),
        (None, None) => true,
        _ => false,
    }
}

/// Whether an address row matches address parameters on every field.
fn addr_fields_match(p: &DBAddressParams, v: &DBAddress) -> (r: bool)
    ensures
        r == addr_matches(p@, v@),
{
    let city_eq = p.city == v.city;
    let state_eq = p.state == v.state;
    let zip_eq = p.zip == v.zip;
    let line_1_eq = p.line_1 == v.line_1;
    city_eq && state_eq && zip_eq && line_1_eq && opt_str_eq(&p.line_2, &v.line_2)
}

/// Looks an address payload up among the stored address rows, matching on
/// every field, and returns a matching row's identifier if one exists.
pub fn find_address(addresses: &Repo<DBAddress>, params: &DBAddressParams) -> (r: Option<u64>)
    ensures
        match r {
            Some(x) => exists|i: int|
                0 <= i < addresses.rows_view().len() && addr_matches(
                    params@,
                    #[trigger] addresses.rows_view()[i],
                ) && addresses.rows_view()[i].id == x,
            None => !has_addr_match(params@, addresses.rows_view()),
        },
        r is Some <==> has_addr_match(params@, addresses.rows_view()),
{
    let ghost s = addresses.rows_view();
    let all = addresses.get_multiple();
    let mut i: usize = 0;
    while i < all.len()
        invariant
            i <= all.len(),
            s == addresses.rows_view(),
            views_of(all@) == s,
            all@.len() == s.len(),
            forall|k: int| 0 <= k < i ==> !addr_matches(params@, #[trigger] s[k]),
        decreases all.len() - i,
    {
        proof {
            assert(all@[i as int]@ == s[i as int]);
        }
        if addr_fields_match(params, &all[i]) {
            return Some(all[i].id);
        }
        i = i + 1;
    }
    None
}

/// Resolves an optional address payload: the matching stored row's
/// identifier, or the identifier of a freshly inserted row, or nothing.
fn resolve_address(addresses: &mut Repo<DBAddress>, address: &Option<DBAddressParams>) -> (r:
    Option<u64>)
    requires
        old(addresses).wf(),
        old(addresses).spec_next_id() < u64::MAX,
    ensures
        final(addresses).wf(),
        spec_resolve_address(
            match *address {
                Some(ref ap) => Some(ap@),
                None => None,
            },
            old(addresses).rows_view(),
            old(addresses).spec_next_id(),
            final(addresses).rows_view(),
            final(addresses).spec_next_id(),
            r,
        ),
{
    match address {
        None => None,
        Some(ap) => {
            match find_address(addresses, ap) {
                Some(x) => Some(x),
                None => {
                    proof {
                        assert(<DBAddress as Record>::spec_fields().len() == 5);
                    }
                    let rec = addresses.insert_one(ap.clone()).unwrap();
                    proof {
                        assert(rec@ =~= AddressView {
                            id: old(addresses).spec_next_id(),
                            city: ap@.city,
                            state: ap@.state,
                            zip: ap@.zip,
                            line_1: ap@.line_1,
                            line_2: ap@.line_2,
                        });
                    }
                    Some(rec.id())
                },
            }
        },
    }
}

/// Inserts one support resource: its address payload is deduplicated into
/// the address rows first, its image payloads are created in submission
/// order, and the resource row is created owning the resulting image
/// identifier list and referencing the resolved address. The declared
/// column list carries no website address, so none is stored.
pub fn insert_resource(
    resources: &mut Repo<DBResource>,
    addresses: &mut Repo<DBAddress>,
    images: &mut Repo<DBImage>,
    params: DBResourceParams,
) -> (r: Result<DBResource, RepoError>)
    requires
        old(resources).wf(),
        old(addresses).wf(),
        old(images).wf(),
        old(resources).spec_next_id() < u64::MAX,
        old(addresses).spec_next_id() < u64::MAX,
        old(images).spec_next_id() + params@.img_params.len() <= u64::MAX,
    ensures
        final(resources).wf(),
        final(addresses).wf(),
        final(images).wf(),
        r is Ok,
        final(images).spec_next_id() == old(images).spec_next_id() + params@.img_params.len(),
        final(images).rows_view().len() == old(images).rows_view().len()
            + params@.img_params.len(),
        final(images).rows_view().take(old(images).rows_view().len() as int) == old(
            images,
        ).rows_view(),
        forall|k: int|
            0 <= k < params@.img_params.len() ==> ({
                let iv = #[trigger] final(images).rows_view()[old(images).rows_view().len() + k];
                &&& iv.id == old(images).spec_next_id() + k
                &&& <DBImage as DbData<crate::models::DBImageParams>>::spec_params_match(
                    params@.img_params[k],
                    iv,
                )
            }),
        match r {
            Ok(rec) => ({
                &&& spec_resolve_address(
                    params@.address,
                    old(addresses).rows_view(),
                    old(addresses).spec_next_id(),
                    final(addresses).rows_view(),
                    final(addresses).spec_next_id(),
                    rec@.address_id,
                )
                &&& rec@.id == old(resources).spec_next_id()
                &&& rec@.img_ids == Seq::new(
                    params@.img_params.len(),
                    |k: int| (old(images).spec_next_id() + k) as u64,
                )
                &&& rec@.name == params@.name
                &&& rec@.description == params@.description
                &&& rec@.missions == params@.missions
                &&& rec@.phone == params@.phone
                &&& rec@.email == params@.email
                &&& rec@.website_url is None
                &&& rec@.twitter == params@.twitter
                &&& rec@.facebook == params@.facebook
                &&& rec@.youtube == params@.youtube
                &&& rec@.linkedin == params@.linkedin
                &&& rec@.threads == params@.threads
                &&& rec@.instagram == params@.instagram
                &&& final(resources).rows_view() == old(resources).rows_view().push(rec@)
                &&& final(resources).spec_next_id() == old(resources).spec_next_id() + 1
            }),
            Err(_) => false,
        },
{
    let ghost pv = params@;
    let DBResourceParams {
        name,
        img_params,
        description,
        missions,
        phone,
        email,
        website_url,
        address,
        twitter,
        facebook,
        youtube,
        linkedin,
        threads,
        instagram,
    } = params;
    let address_id = resolve_address(addresses, &address);
    proof {
        assert(views_of(img_params@).len() == img_params@.len());
    }
    let ids = insert_images(images, img_params);
    let id = resources.next_id();
    let rec = DBResource {
        id,
        img_ids: ids,
        name,
        description,
        missions,
        phone,
        email,
        website_url: None,
        address_id,
        twitter,
        facebook,
        youtube,
        linkedin,
        threads,
        instagram,
    };
    let out = rec.clone();
    resources.insert_row(rec);
    proof {
        assert(out@.img_ids =~= Seq::new(
            pv.img_params.len(),
            |k: int| (old(images).spec_next_id() + k) as u64,
        ));
    }
    Ok(out)
}

/// Updates one support resource: fails with `Storage` exactly when no
/// resource row carries the identifier; otherwise its address payload is
/// deduplicated into the address rows, and every declared column of the row
/// is set from the parameters while the identifier, the owned image
/// identifier list and the stored website address are kept.
pub fn update_resource(
    resources: &mut Repo<DBResource>,
    addresses: &mut Repo<DBAddress>,
    params: DBResourceParams,
    id: u64,
) -> (r: Result<(), RepoError>)
    requires
        old(resources).wf(),
        old(addresses).wf(),
        old(addresses).spec_next_id() < u64::MAX,
    ensures
        final(resources).wf(),
        final(addresses).wf(),
        final(resources).spec_next_id() == old(resources).spec_next_id(),
        r is Err <==> !contains_id::<DBResource>(old(resources).rows_view(), id),
        match r {
            Ok(_) => exists|i: int|
                0 <= i < old(resources).rows_view().len() && (#[trigger] old(
                    resources,
                ).rows_view()[i]).id == id && ({
                    let newv = final(resources).rows_view()[i];
                    &&& final(resources).rows_view() == old(resources).rows_view().update(i, newv)
                    &&& spec_resolve_address(
                        params@.address,
                        old(addresses).rows_view(),
                        old(addresses).spec_next_id(),
                        final(addresses).rows_view(),
                        final(addresses).spec_next_id(),
                        newv.address_id,
                    )
                    &&& newv.id == id
                    &&& newv.img_ids == old(resources).rows_view()[i].img_ids
                    &&& newv.website_url == old(resources).rows_view()[i].website_url
                    &&& newv.name == params@.name
                    &&& newv.description == params@.description
                    &&& newv.missions == params@.missions
                    &&& newv.phone == params@.phone
                    &&& newv.email == params@.email
                    &&& newv.twitter == params@.twitter
                    &&& newv.facebook == params@.facebook
                    &&& newv.youtube == params@.youtube
                    &&& newv.linkedin == params@.linkedin
                    &&& newv.threads == params@.threads
                    &&& newv.instagram == params@.instagram
                }),
            Err(e) => e == RepoError::Storage && final(resources).rows_view() == old(
                resources,
            ).rows_view() && final(addresses).rows_view() == old(addresses).rows_view()
                && final(addresses).spec_next_id() == old(addresses).spec_next_id(),
        },
{
    let ghost s = resources.rows_view();
    let existing = match resources.get_single_by(id) {
        Some(rec) => rec,
        None => {
            return Err(RepoError::Storage);
        },
    };
    let address_id = resolve_address(addresses, &params.address);
    let DBResourceParams {
        name,
        img_params,
        description,
        missions,
        phone,
        email,
        website_url,
        address,
        twitter,
        facebook,
        youtube,
        linkedin,
        threads,
        instagram,
    } = params;
    let DBResource {
        id: _existing_id,
        img_ids: kept_img_ids,
        name: _old_name,
        description: _old_description,
        missions: _old_missions,
        phone: _old_phone,
        email: _old_email,
        website_url: kept_website_url,
        address_id: _old_address_id,
        twitter: _old_twitter,
        facebook: _old_facebook,
        youtube: _old_youtube,
        linkedin: _old_linkedin,
        threads: _old_threads,
        instagram: _old_instagram,
    } = existing;
    let ghost existing_view = spec_find::<DBResource>(s, id)->Some_0;
    let rec = DBResource {
        id,
        img_ids: kept_img_ids,
        name,
        description,
        missions,
        phone,
        email,
        website_url: kept_website_url,
        address_id,
        twitter,
        facebook,
        youtube,
        linkedin,
        threads,
        instagram,
    };
    let ghost newv = rec@;
    let result = resources.replace_row(rec);
    proof {
        assert(result is Ok);
        let i = choose|i: int|
            0 <= i < s.len() && <DBResource as Record>::view_id(#[trigger] s[i]) == id
                && resources.rows_view() == s.update(i, newv);
        lemma_wf_find::<DBResource>(s, old(resources).spec_next_id(), id, i);
        assert(existing_view == s[i]);
        assert(resources.rows_view()[i] == newv);
    }
    match result {
        Ok(_) => Ok(()),
        Err(_) => {
            proof {
                assert(false);
            }
            Err(RepoError::Storage)
        },
    }
}

} // verus!
