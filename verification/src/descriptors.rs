//! The descriptor implementations: one [`Record`] / [`DbData`] pair per
//! stored kind, declaring its storage location, ordered column list, bind
//! arity and construction. The bind arity counts the values the kind's bind
//! step attaches; kinds whose column list ends with the appended image
//! identifier list declare one value fewer than they have columns, and the
//! attachment coordinator supplies the rest.

use vstd::prelude::*;

use crate::handles::DbData;
use crate::handles::Record;
use crate::handles::views_of;
use crate::models::AddressParamsView;
use crate::models::AddressView;
use crate::models::DBAddress;
use crate::models::DBAddressParams;
use crate::models::DBDedication;
use crate::models::DBDedicationParams;
use crate::models::DBImage;
use crate::models::DBImageParams;
use crate::models::DBPatrolLog;
use crate::models::DBPatrolLogParams;
use crate::models::DBResource;
use crate::models::DBResourceParams;
use crate::models::DBTestimonial;
use crate::models::DBTestimonialParams;
use crate::models::DedicationParamsView;
use crate::models::DedicationView;
use crate::models::ImageParamsView;
use crate::models::ImageView;
use crate::models::PatrolLogParamsView;
use crate::models::PatrolLogView;
use crate::models::ResourceParamsView;
use crate::models::ResourceView;
use crate::models::TestimonialParamsView;
use crate::models::TestimonialView;

verus! {

impl Record for DBImage {
    open spec fn view_id(v: ImageView) -> u64 {
        v.id
    }

    open spec fn view_img_ids(v: ImageView) -> Seq<u64> {
        Seq::<u64>::empty()
    }

    open spec fn spec_table_name() -> Seq<char> {
        "images"@
    }

    open spec fn spec_fields() -> Seq<Seq<char>> {
        seq!["path"@, "alt"@, "subtitle"@]
    }

    open spec fn spec_owns_images() -> bool {
        false
    }

    fn table_name() -> (r: String) {
        "images".to_owned()
    }

    fn fields() -> (r: Vec<String>) {
        let mut v: Vec<String> = Vec::new();
        v.push("path".to_owned());
        v.push("alt".to_owned());
        v.push("subtitle".to_owned());
        proof {
            assert(v.deep_view() =~= Self::spec_fields());
        }
        v
    }

    fn id(&self) -> (r: u64) {
        self.id
    }

    fn img_ids(&self) -> (r: Vec<u64>) {
        let v: Vec<u64> = Vec::new();
        proof {
            assert(v@ =~= Seq::<u64>::empty());
        }
        v
    }

    fn owns_images() -> (r: bool) {
        false
    }

    fn clone_rec(&self) -> (r: Self) {
        self.clone()
    }

    proof fn lemma_no_images_empty(v: ImageView) {
    }
}

impl DbData<DBImageParams> for DBImage {
    open spec fn spec_bind_arity() -> nat {
        3
    }

    open spec fn spec_params_match(p: ImageParamsView, v: ImageView) -> bool {
        &&& v.path == p.path
        &&& v.alt == p.alt
        &&& v.subtitle == p.subtitle
    }

    open spec fn spec_img_params(p: ImageParamsView) -> Seq<ImageParamsView> {
        Seq::<ImageParamsView>::empty()
    }

    open spec fn spec_strip_images(p: ImageParamsView) -> ImageParamsView {
        p
    }

    fn bind_arity() -> (r: usize) {
        3
    }

    fn take_images(params: &mut DBImageParams) -> (r: Option<Vec<DBImageParams>>) {
        None
    }

    fn create(id: u64, img_ids: Vec<u64>, params: DBImageParams) -> (r: Self) {
        let DBImageParams { path, alt, subtitle } = params;
        DBImage { id, path, alt, subtitle }
    }

    proof fn lemma_strip_preserves_match(p: ImageParamsView, v: ImageView) {
    }
}

impl Record for DBTestimonial {
    open spec fn view_id(v: TestimonialView) -> u64 {
        v.id
    }

    open spec fn view_img_ids(v: TestimonialView) -> Seq<u64> {
        Seq::<u64>::empty()
    }

    open spec fn spec_table_name() -> Seq<char> {
        "testimonials"@
    }

    open spec fn spec_fields() -> Seq<Seq<char>> {
        seq!["firstname"@, "lastname"@, "bio"@, "content"@]
    }

    open spec fn spec_owns_images() -> bool {
        false
    }

    fn table_name() -> (r: String) {
        "testimonials".to_owned()
    }

    fn fields() -> (r: Vec<String>) {
        let mut v: Vec<String> = Vec::new();
        v.push("firstname".to_owned());
        v.push("lastname".to_owned());
        v.push("bio".to_owned());
        v.push("content".to_owned());
        proof {
            assert(v.deep_view() =~= Self::spec_fields());
        }
        v
    }

    fn id(&self) -> (r: u64) {
        self.id
    }

    fn img_ids(&self) -> (r: Vec<u64>) {
        let v: Vec<u64> = Vec::new();
        proof {
            assert(v@ =~= Seq::<u64>::empty());
        }
        v
    }

    fn owns_images() -> (r: bool) {
        false
    }

    fn clone_rec(&self) -> (r: Self) {
        self.clone()
    }

    proof fn lemma_no_images_empty(v: TestimonialView) {
    }
}

impl DbData<DBTestimonialParams> for DBTestimonial {
    open spec fn spec_bind_arity() -> nat {
        4
    }

    open spec fn spec_params_match(p: TestimonialParamsView, v: TestimonialView) -> bool {
        &&& v.firstname == p.firstname
        &&& v.lastname == p.lastname
        &&& v.bio == p.bio
        &&& v.content == p.content
    }

    open spec fn spec_img_params(p: TestimonialParamsView) -> Seq<ImageParamsView> {
        Seq::<ImageParamsView>::empty()
    }

    open spec fn spec_strip_images(p: TestimonialParamsView) -> TestimonialParamsView {
        p
    }

    fn bind_arity() -> (r: usize) {
        4
    }

    fn take_images(params: &mut DBTestimonialParams) -> (r: Option<Vec<DBImageParams>>) {
        None
    }

    fn create(id: u64, img_ids: Vec<u64>, params: DBTestimonialParams) -> (r: Self) {
        let DBTestimonialParams { firstname, lastname, bio, content } = params;
        DBTestimonial { id, firstname, lastname, bio, content }
    }

    proof fn lemma_strip_preserves_match(p: TestimonialParamsView, v: TestimonialView) {
    }
}

impl Record for DBAddress {
    open spec fn view_id(v: AddressView) -> u64 {
        v.id
    }

    open spec fn view_img_ids(v: AddressView) -> Seq<u64> {
        Seq::<u64>::empty()
    }

    open spec fn spec_table_name() -> Seq<char> {
        "addresses"@
    }

    open spec fn spec_fields() -> Seq<Seq<char>> {
        seq!["city"@, "state"@, "zip"@, "line_1"@, "line_2"@]
    }

    open spec fn spec_owns_images() -> bool {
        false
    }

    fn table_name() -> (r: String) {
        "addresses".to_owned()
    }

    fn fields() -> (r: Vec<String>) {
        let mut v: Vec<String> = Vec::new();
        v.push("city".to_owned());
        v.push("state".to_owned());
        v.push("zip".to_owned());
        v.push("line_1".to_owned());
        v.push("line_2".to_owned());
        proof {
            assert(v.deep_view() =~= Self::spec_fields());
        }
        v
    }

    fn id(&self) -> (r: u64) {
        self.id
    }

    fn img_ids(&self) -> (r: Vec<u64>) {
        let v: Vec<u64> = Vec::new();
        proof {
            assert(v@ =~= Seq::<u64>::empty());
        }
        v
    }

    fn owns_images() -> (r: bool) {
        false
    }

    fn clone_rec(&self) -> (r: Self) {
        self.clone()
    }

    proof fn lemma_no_images_empty(v: AddressView) {
    }
}

impl DbData<DBAddressParams> for DBAddress {
    open spec fn spec_bind_arity() -> nat {
        5
    }

    open spec fn spec_params_match(p: AddressParamsView, v: AddressView) -> bool {
        &&& v.city == p.city
        &&& v.state == p.state
        &&& v.zip == p.zip
        &&& v.line_1 == p.line_1
        &&& v.line_2 == p.line_2
    }

    open spec fn spec_img_params(p: AddressParamsView) -> Seq<ImageParamsView> {
        Seq::<ImageParamsView>::empty()
    }

    open spec fn spec_strip_images(p: AddressParamsView) -> AddressParamsView {
        p
    }

    fn bind_arity() -> (r: usize) {
        5
    }

    fn take_images(params: &mut DBAddressParams) -> (r: Option<Vec<DBImageParams>>) {
        None
    }

    fn create(id: u64, img_ids: Vec<u64>, params: DBAddressParams) -> (r: Self) {
        let DBAddressParams { city, state, zip, line_1, line_2 } = params;
        DBAddress { id, city, state, zip, line_1, line_2 }
    }

    proof fn lemma_strip_preserves_match(p: AddressParamsView, v: AddressView) {
    }
}

impl Record for DBDedication {
    open spec fn view_id(v: DedicationView) -> u64 {
        v.id
    }

    open spec fn view_img_ids(v: DedicationView) -> Seq<u64> {
        v.img_ids
    }

    open spec fn spec_table_name() -> Seq<char> {
        "dedications"@
    }

    open spec fn spec_fields() -> Seq<Seq<char>> {
        seq!["names"@, "bio"@, "birth"@, "death"@, "img_ids"@]
    }

    open spec fn spec_owns_images() -> bool {
        true
    }

    fn table_name() -> (r: String) {
        "dedications".to_owned()
    }

    fn fields() -> (r: Vec<String>) {
        let mut v: Vec<String> = Vec::new();
        v.push("names".to_owned());
        v.push("bio".to_owned());
        v.push("birth".to_owned());
        v.push("death".to_owned());
        v.push("img_ids".to_owned());
        proof {
            assert(v.deep_view() =~= Self::spec_fields());
        }
        v
    }

    fn id(&self) -> (r: u64) {
        self.id
    }

    fn img_ids(&self) -> (r: Vec<u64>) {
        crate::models::clone_id_vec(&self.img_ids)
    }

    fn owns_images() -> (r: bool) {
        true
    }

    fn clone_rec(&self) -> (r: Self) {
        self.clone()
    }

    proof fn lemma_no_images_empty(v: DedicationView) {
    }
}

impl DbData<DBDedicationParams> for DBDedication {
    open spec fn spec_bind_arity() -> nat {
        4
    }

    open spec fn spec_params_match(p: DedicationParamsView, v: DedicationView) -> bool {
        &&& v.names == p.names
        &&& v.bio == p.bio
        &&& v.birth == p.birth
        &&& v.death == p.death
    }

    open spec fn spec_img_params(p: DedicationParamsView) -> Seq<ImageParamsView> {
        p.img_params
    }

    open spec fn spec_strip_images(p: DedicationParamsView) -> DedicationParamsView {
        DedicationParamsView { img_params: Seq::<ImageParamsView>::empty(), ..p }
    }

    fn bind_arity() -> (r: usize) {
        4
    }

    fn take_images(params: &mut DBDedicationParams) -> (r: Option<Vec<DBImageParams>>) {
        let mut imgs: Vec<DBImageParams> = Vec::new();
        core::mem::swap(&mut params.img_params, &mut imgs);
        proof {
            assert(views_of(imgs@) =~= Self::spec_img_params(old(params)@));
            assert(params@ =~= Self::spec_strip_images(old(params)@));
        }
        Some(imgs)
    }

    fn create(id: u64, img_ids: Vec<u64>, params: DBDedicationParams) -> (r: Self) {
        let DBDedicationParams { names, bio, birth, death, img_params } = params;
        DBDedication { id, names, bio, birth, death, img_ids }
    }

    proof fn lemma_strip_preserves_match(p: DedicationParamsView, v: DedicationView) {
    }
}

impl Record for DBPatrolLog {
    open spec fn view_id(v: PatrolLogView) -> u64 {
        v.id
    }

    open spec fn view_img_ids(v: PatrolLogView) -> Seq<u64> {
        v.img_ids
    }

    open spec fn spec_table_name() -> Seq<char> {
        "patrol_logs"@
    }

    open spec fn spec_fields() -> Seq<Seq<char>> {
        seq!["heading"@, "description"@, "date"@, "img_ids"@]
    }

    open spec fn spec_owns_images() -> bool {
        true
    }

    fn table_name() -> (r: String) {
        "patrol_logs".to_owned()
    }

    fn fields() -> (r: Vec<String>) {
        let mut v: Vec<String> = Vec::new();
        v.push("heading".to_owned());
        v.push("description".to_owned());
        v.push("date".to_owned());
        v.push("img_ids".to_owned());
        proof {
            assert(v.deep_view() =~= Self::spec_fields());
        }
        v
    }

    fn id(&self) -> (r: u64) {
        self.id
    }

    fn img_ids(&self) -> (r: Vec<u64>) {
        crate::models::clone_id_vec(&self.img_ids)
    }

    fn owns_images() -> (r: bool) {
        true
    }

    fn clone_rec(&self) -> (r: Self) {
        self.clone()
    }

    proof fn lemma_no_images_empty(v: PatrolLogView) {
    }
}

impl DbData<DBPatrolLogParams> for DBPatrolLog {
    open spec fn spec_bind_arity() -> nat {
        3
    }

    open spec fn spec_params_match(p: PatrolLogParamsView, v: PatrolLogView) -> bool {
        &&& v.heading == p.heading
        &&& v.description == p.description
        &&& v.date == p.date
    }

    open spec fn spec_img_params(p: PatrolLogParamsView) -> Seq<ImageParamsView> {
        p.img_params
    }

    open spec fn spec_strip_images(p: PatrolLogParamsView) -> PatrolLogParamsView {
        PatrolLogParamsView { img_params: Seq::<ImageParamsView>::empty(), ..p }
    }

    fn bind_arity() -> (r: usize) {
        3
    }

    fn take_images(params: &mut DBPatrolLogParams) -> (r: Option<Vec<DBImageParams>>) {
        let mut imgs: Vec<DBImageParams> = Vec::new();
        core::mem::swap(&mut params.img_params, &mut imgs);
        proof {
            assert(views_of(imgs@) =~= Self::spec_img_params(old(params)@));
            assert(params@ =~= Self::spec_strip_images(old(params)@));
        }
        Some(imgs)
    }

    fn create(id: u64, img_ids: Vec<u64>, params: DBPatrolLogParams) -> (r: Self) {
        let DBPatrolLogParams { heading, description, date, img_params } = params;
        DBPatrolLog { id, heading, description, date, img_ids }
    }

    proof fn lemma_strip_preserves_match(p: PatrolLogParamsView, v: PatrolLogView) {
    }
}

impl Record for DBResource {
    open spec fn view_id(v: ResourceView) -> u64 {
        v.id
    }

    open spec fn view_img_ids(v: ResourceView) -> Seq<u64> {
        v.img_ids
    }

    open spec fn spec_table_name() -> Seq<char> {
        "support_resources"@
    }

    open spec fn spec_fields() -> Seq<Seq<char>> {
        seq![
            "name"@,
            "description"@,
            "missions"@,
            "phone"@,
            "email"@,
            "twitter"@,
            "facebook"@,
            "youtube"@,
            "linkedin"@,
            "threads"@,
            "instagram"@,
        ]
    }

    open spec fn spec_owns_images() -> bool {
        true
    }

    fn table_name() -> (r: String) {
        "support_resources".to_owned()
    }

    fn fields() -> (r: Vec<String>) {
        let mut v: Vec<String> = Vec::new();
        v.push("name".to_owned());
        v.push("description".to_owned());
        v.push("missions".to_owned());
        v.push("phone".to_owned());
        v.push("email".to_owned());
        v.push("twitter".to_owned());
        v.push("facebook".to_owned());
        v.push("youtube".to_owned());
        v.push("linkedin".to_owned());
        v.push("threads".to_owned());
        v.push("instagram".to_owned());
        proof {
            assert(v.deep_view() =~= Self::spec_fields());
        }
        v
    }

    fn id(&self) -> (r: u64) {
        self.id
    }

    fn img_ids(&self) -> (r: Vec<u64>) {
        crate::models::clone_id_vec(&self.img_ids)
    }

    fn owns_images() -> (r: bool) {
        true
    }

    fn clone_rec(&self) -> (r: Self) {
        self.clone()
    }

    proof fn lemma_no_images_empty(v: ResourceView) {
    }
}

impl DbData<DBResourceParams> for DBResource {
    open spec fn spec_bind_arity() -> nat {
        11
    }

    open spec fn spec_params_match(p: ResourceParamsView, v: ResourceView) -> bool {
        &&& v.name == p.name
        &&& v.description == p.description
        &&& v.missions == p.missions
        &&& v.phone == p.phone
        &&& v.email == p.email
        &&& v.twitter == p.twitter
        &&& v.facebook == p.facebook
        &&& v.youtube == p.youtube
        &&& v.linkedin == p.linkedin
        &&& v.threads == p.threads
        &&& v.instagram == p.instagram
    }

    open spec fn spec_img_params(p: ResourceParamsView) -> Seq<ImageParamsView> {
        p.img_params
    }

    open spec fn spec_strip_images(p: ResourceParamsView) -> ResourceParamsView {
        ResourceParamsView { img_params: Seq::<ImageParamsView>::empty(), ..p }
    }

    fn bind_arity() -> (r: usize) {
        11
    }

    fn take_images(params: &mut DBResourceParams) -> (r: Option<Vec<DBImageParams>>) {
        let mut imgs: Vec<DBImageParams> = Vec::new();
        core::mem::swap(&mut params.img_params, &mut imgs);
        proof {
            assert(views_of(imgs@) =~= Self::spec_img_params(old(params)@));
            assert(params@ =~= Self::spec_strip_images(old(params)@));
        }
        Some(imgs)
    }

    /// The generic construction: no address has been resolved on this path,
    /// and the column list carries no website address, so neither is stored.
    fn create(id: u64, img_ids: Vec<u64>, params: DBResourceParams) -> (r: Self) {
        let DBResourceParams {
            name,
            img_params,
            description,
            missions,
            phone,
            email,
            website_url,
            address,
            twitter,
            facebook,
            youtube,
            linkedin,
            threads,
            instagram,
        } = params;
        DBResource {
            id,
            img_ids,
            name,
            description,
            missions,
            phone,
            email,
            website_url: None,
            address_id: None,
            twitter,
            facebook,
            youtube,
            linkedin,
            threads,
            instagram,
        }
    }

    proof fn lemma_strip_preserves_match(p: ResourceParamsView, v: ResourceView) {
    }
}

} // verus!
