//! Record and parameter types for every entity kind the repository stores,
//! together with their mathematical views.
//!
//! Each record kind comes in two shapes: the stored record (`DB...`), which
//! carries the identifier the store assigned at creation, and the creation
//! parameters (`DB...Params`), which carry everything but the identifier.
//! Kinds that own images embed their image payloads in the parameters as a
//! list of [`DBImageParams`].

use vstd::prelude::*;

verus! {

/// The error kinds the repository raises.
///
/// `NotFound` is raised when a delete-by-id affects zero rows; `Storage`
/// stands for a store-level failure (in this model: an update that matches no
/// row, or an exhausted identifier space); `ImagePolicyViolation` is raised
/// when an image-owning kind is asked to insert without an embedded image
/// list.
#[derive(Clone, Copy, Debug, PartialEq, Eq, Structural)]
pub enum RepoError {
    NotFound,
    Storage,
    ImagePolicyViolation,
}

/// A calendar date as plain year, month and day numbers.
#[derive(Clone, Copy, Debug, PartialEq, Eq, Structural)]
pub struct Date {
    pub year: i32,
    pub month: u32,
    pub day: u32,
}

/// The view of an optional owned string.
pub open spec fn opt_str_view(o: Option<String>) -> Option<Seq<char>> {
    match o {
        Some(s) => Some(s@),
        None => None,
    }
}

/// The views of a sequence of owned strings.
pub open spec fn str_seq_view(s: Seq<String>) -> Seq<Seq<char>> {
    s.map_values(|x: String| x@)
}

/// Clones an optional string; the result is equal to the input.
pub fn clone_opt_string(o: &Option<String>) -> (r: Option<String>)
    ensures
        r == *o,
{
    match o {
        Some(s) => Some(s.clone()),
        None => None,
    }
}

/// Clones a vector of strings element by element; the views agree.
pub fn clone_string_vec(v: &Vec<String>) -> (r: Vec<String>)
    ensures
        r@ == v@,
{
    let mut out: Vec<String> = Vec::new();
    let mut i: usize = 0;
    while i < v.len()
        invariant
            i <= v.len(),
            out@ == v@.take(i as int),
        decreases v.len() - i,
    {
        out.push(v[i].clone());
        proof {
            assert(out@ =~= v@.take(i + 1));
        }
        i = i + 1;
    }
    proof {
        assert(out@ =~= v@);
    }
    out
}

/// Clones a vector of identifiers; the views agree.
pub fn clone_id_vec(v: &Vec<u64>) -> (r: Vec<u64>)
    ensures
        r@ == v@,
{
    let mut out: Vec<u64> = Vec::new();
    let mut i: usize = 0;
    while i < v.len()
        invariant
            i <= v.len(),
            out@ == v@.take(i as int),
        decreases v.len() - i,
    {
        out.push(v[i]);
        proof {
            assert(out@ =~= v@.take(i + 1));
        }
        i = i + 1;
    }
    proof {
        assert(out@ =~= v@);
    }
    out
}

/// A stored image row: identifier, storage path, alt text, optional subtitle.
#[derive(Debug, PartialEq, Eq)]
pub struct DBImage {
    pub id: u64,
    pub path: String,
    pub alt: String,
    pub subtitle: Option<String>,
}

/// The view of a stored image row.
#[verifier::ext_equal]
pub struct ImageView {
    pub id: u64,
    pub path: Seq<char>,
    pub alt: Seq<char>,
    pub subtitle: Option<Seq<char>>,
}

impl View for DBImage {
    type V = ImageView;

    open spec fn view(&self) -> ImageView {
        ImageView {
            id: self.id,
            path: self.path@,
            alt: self.alt@,
            subtitle: opt_str_view(self.subtitle),
        }
    }
}

impl Clone for DBImage {
    fn clone(&self) -> (r: Self)
        ensures
            r@ == self@,
    {
        DBImage {
            id: self.id,
            path: self.path.clone(),
            alt: self.alt.clone(),
            subtitle: clone_opt_string(&self.subtitle),
        }
    }
}

/// Creation parameters for an image row.
#[derive(Debug, PartialEq, Eq)]
pub struct DBImageParams {
    pub path: String,
    pub alt: String,
    pub subtitle: Option<String>,
}

/// The view of image creation parameters.
#[verifier::ext_equal]
pub struct ImageParamsView {
    pub path: Seq<char>,
    pub alt: Seq<char>,
    pub subtitle: Option<Seq<char>>,
}

impl View for DBImageParams {
    type V = ImageParamsView;

    open spec fn view(&self) -> ImageParamsView {
        ImageParamsView {
            path: self.path@,
            alt: self.alt@,
            subtitle: opt_str_view(self.subtitle),
        }
    }
}

impl Clone for DBImageParams {
    fn clone(&self) -> (r: Self)
        ensures
            r@ == self@,
    {
        DBImageParams {
            path: self.path.clone(),
            alt: self.alt.clone(),
            subtitle: clone_opt_string(&self.subtitle),
        }
    }
}

/// A stored street address row.
#[derive(Debug, PartialEq, Eq)]
pub struct DBAddress {
    pub id: u64,
    pub city: String,
    pub state: String,
    pub zip: String,
    pub line_1: String,
    pub line_2: Option<String>,
}

/// The view of a stored address row.
#[verifier::ext_equal]
pub struct AddressView {
    pub id: u64,
    pub city: Seq<char>,
    pub state: Seq<char>,
    pub zip: Seq<char>,
    pub line_1: Seq<char>,
    pub line_2: Option<Seq<char>>,
}

impl View for DBAddress {
    type V = AddressView;

    open spec fn view(&self) -> AddressView {
        AddressView {
            id: self.id,
            city: self.city@,
            state: self.state@,
            zip: self.zip@,
            line_1: self.line_1@,
            line_2: opt_str_view(self.line_2),
        }
    }
}

impl Clone for DBAddress {
    fn clone(&self) -> (r: Self)
        ensures
            r@ == self@,
    {
        DBAddress {
            id: self.id,
            city: self.city.clone(),
            state: self.state.clone(),
            zip: self.zip.clone(),
            line_1: self.line_1.clone(),
            line_2: clone_opt_string(&self.line_2),
        }
    }
}

/// Creation parameters for an address row.
#[derive(Debug, PartialEq, Eq)]
pub struct DBAddressParams {
    pub city: String,
    pub state: String,
    pub zip: String,
    pub line_1: String,
    pub line_2: Option<String>,
}

/// The view of address creation parameters.
#[verifier::ext_equal]
pub struct AddressParamsView {
    pub city: Seq<char>,
    pub state: Seq<char>,
    pub zip: Seq<char>,
    pub line_1: Seq<char>,
    pub line_2: Option<Seq<char>>,
}

impl View for DBAddressParams {
    type V = AddressParamsView;

    open spec fn view(&self) -> AddressParamsView {
        AddressParamsView {
            city: self.city@,
            state: self.state@,
            zip: self.zip@,
            line_1: self.line_1@,
            line_2: opt_str_view(self.line_2),
        }
    }
}

impl Clone for DBAddressParams {
    fn clone(&self) -> (r: Self)
        ensures
            r@ == self@,
    {
        DBAddressParams {
            city: self.city.clone(),
            state: self.state.clone(),
            zip: self.zip.clone(),
            line_1: self.line_1.clone(),
            line_2: clone_opt_string(&self.line_2),
        }
    }
}

/// A stored dedication row; owns an ordered list of image identifiers.
#[derive(Debug, PartialEq, Eq)]
pub struct DBDedication {
    pub id: u64,
    pub names: Vec<String>,
    pub bio: String,
    pub birth: Date,
    pub death: Date,
    pub img_ids: Vec<u64>,
}

/// The view of a stored dedication row.
#[verifier::ext_equal]
pub struct DedicationView {
    pub id: u64,
    pub names: Seq<Seq<char>>,
    pub bio: Seq<char>,
    pub birth: Date,
    pub death: Date,
    pub img_ids: Seq<u64>,
}

impl View for DBDedication {
    type V = DedicationView;

    open spec fn view(&self) -> DedicationView {
        DedicationView {
            id: self.id,
            names: str_seq_view(self.names@),
            bio: self.bio@,
            birth: self.birth,
            death: self.death,
            img_ids: self.img_ids@,
        }
    }
}

impl Clone for DBDedication {
    fn clone(&self) -> (r: Self)
        ensures
            r@ == self@,
    {
        DBDedication {
            id: self.id,
            names: clone_string_vec(&self.names),
            bio: self.bio.clone(),
            birth: self.birth,
            death: self.death,
            img_ids: clone_id_vec(&self.img_ids),
        }
    }
}

/// Creation parameters for a dedication; embeds its image payloads.
#[derive(Debug, PartialEq, Eq)]
pub struct DBDedicationParams {
    pub names: Vec<String>,
    pub bio: String,
    pub birth: Date,
    pub death: Date,
    pub img_params: Vec<DBImageParams>,
}

/// The view of dedication creation parameters.
#[verifier::ext_equal]
pub struct DedicationParamsView {
    pub names: Seq<Seq<char>>,
    pub bio: Seq<char>,
    pub birth: Date,
    pub death: Date,
    pub img_params: Seq<ImageParamsView>,
}

impl View for DBDedicationParams {
    type V = DedicationParamsView;

    open spec fn view(&self) -> DedicationParamsView {
        DedicationParamsView {
            names: str_seq_view(self.names@),
            bio: self.bio@,
            birth: self.birth,
            death: self.death,
            img_params: self.img_params@.map_values(|p: DBImageParams| p@),
        }
    }
}

/// A stored patrol log row; owns an ordered list of image identifiers.
#[derive(Debug, PartialEq, Eq)]
pub struct DBPatrolLog {
    pub id: u64,
    pub heading: String,
    pub description: String,
    pub date: Date,
    pub img_ids: Vec<u64>,
}

/// The view of a stored patrol log row.
#[verifier::ext_equal]
pub struct PatrolLogView {
    pub id: u64,
    pub heading: Seq<char>,
    pub description: Seq<char>,
    pub date: Date,
    pub img_ids: Seq<u64>,
}

impl View for DBPatrolLog {
    type V = PatrolLogView;

    open spec fn view(&self) -> PatrolLogView {
        PatrolLogView {
            id: self.id,
            heading: self.heading@,
            description: self.description@,
            date: self.date,
            img_ids: self.img_ids@,
        }
    }
}

impl Clone for DBPatrolLog {
    fn clone(&self) -> (r: Self)
        ensures
            r@ == self@,
    {
        DBPatrolLog {
            id: self.id,
            heading: self.heading.clone(),
            description: self.description.clone(),
            date: self.date,
            img_ids: clone_id_vec(&self.img_ids),
        }
    }
}

/// Creation parameters for a patrol log; embeds its image payloads.
#[derive(Debug, PartialEq, Eq)]
pub struct DBPatrolLogParams {
    pub heading: String,
    pub description: String,
    pub date: Date,
    pub img_params: Vec<DBImageParams>,
}

/// The view of patrol log creation parameters.
#[verifier::ext_equal]
pub struct PatrolLogParamsView {
    pub heading: Seq<char>,
    pub description: Seq<char>,
    pub date: Date,
    pub img_params: Seq<ImageParamsView>,
}

impl View for DBPatrolLogParams {
    type V = PatrolLogParamsView;

    open spec fn view(&self) -> PatrolLogParamsView {
        PatrolLogParamsView {
            heading: self.heading@,
            description: self.description@,
            date: self.date,
            img_params: self.img_params@.map_values(|p: DBImageParams| p@),
        }
    }
}

/// A stored testimonial row.
#[derive(Debug, PartialEq, Eq)]
pub struct DBTestimonial {
    pub id: u64,
    pub firstname: String,
    pub lastname: String,
    pub bio: Option<String>,
    pub content: String,
}

/// The view of a stored testimonial row.
#[verifier::ext_equal]
pub struct TestimonialView {
    pub id: u64,
    pub firstname: Seq<char>,
    pub lastname: Seq<char>,
    pub bio: Option<Seq<char>>,
    pub content: Seq<char>,
}

impl View for DBTestimonial {
    type V = TestimonialView;

    open spec fn view(&self) -> TestimonialView {
        TestimonialView {
            id: self.id,
            firstname: self.firstname@,
            lastname: self.lastname@,
            bio: opt_str_view(self.bio),
            content: self.content@,
        }
    }
}

impl Clone for DBTestimonial {
    fn clone(&self) -> (r: Self)
        ensures
            r@ == self@,
    {
        DBTestimonial {
            id: self.id,
            firstname: self.firstname.clone(),
            lastname: self.lastname.clone(),
            bio: clone_opt_string(&self.bio),
            content: self.content.clone(),
        }
    }
}

/// Creation parameters for a testimonial.
#[derive(Debug, PartialEq, Eq)]
pub struct DBTestimonialParams {
    pub firstname: String,
    pub lastname: String,
    pub bio: Option<String>,
    pub content: String,
}

/// The view of testimonial creation parameters.
#[verifier::ext_equal]
pub struct TestimonialParamsView {
    pub firstname: Seq<char>,
    pub lastname: Seq<char>,
    pub bio: Option<Seq<char>>,
    pub content: Seq<char>,
}

impl View for DBTestimonialParams {
    type V = TestimonialParamsView;

    open spec fn view(&self) -> TestimonialParamsView {
        TestimonialParamsView {
            firstname: self.firstname@,
            lastname: self.lastname@,
            bio: opt_str_view(self.bio),
            content: self.content@,
        }
    }
}

/// A stored support resource row; owns images and may reference an address.
#[derive(Debug, PartialEq, Eq)]
pub struct DBResource {
    pub id: u64,
    pub img_ids: Vec<u64>,
    pub name: String,
    pub description: String,
    pub missions: Vec<String>,
    pub phone: Option<String>,
    pub email: Option<String>,
    pub website_url: Option<String>,
    pub address_id: Option<u64>,
    pub twitter: Option<String>,
    pub facebook: Option<String>,
    pub youtube: Option<String>,
    pub linkedin: Option<String>,
    pub threads: Option<String>,
    pub instagram: Option<String>,
}

/// The view of a stored support resource row.
#[verifier::ext_equal]
pub struct ResourceView {
    pub id: u64,
    pub img_ids: Seq<u64>,
    pub name: Seq<char>,
    pub description: Seq<char>,
    pub missions: Seq<Seq<char>>,
    pub phone: Option<Seq<char>>,
    pub email: Option<Seq<char>>,
    pub website_url: Option<Seq<char>>,
    pub address_id: Option<u64>,
    pub twitter: Option<Seq<char>>,
    pub facebook: Option<Seq<char>>,
    pub youtube: Option<Seq<char>>,
    pub linkedin: Option<Seq<char>>,
    pub threads: Option<Seq<char>>,
    pub instagram: Option<Seq<char>>,
}

impl View for DBResource {
    type V = ResourceView;

    open spec fn view(&self) -> ResourceView {
        ResourceView {
            id: self.id,
            img_ids: self.img_ids@,
            name: self.name@,
            description: self.description@,
            missions: str_seq_view(self.missions@),
            phone: opt_str_view(self.phone),
            email: opt_str_view(self.email),
            website_url: opt_str_view(self.website_url),
            address_id: self.address_id,
            twitter: opt_str_view(self.twitter),
            facebook: opt_str_view(self.facebook),
            youtube: opt_str_view(self.youtube),
            linkedin: opt_str_view(self.linkedin),
            threads: opt_str_view(self.threads),
            instagram: opt_str_view(self.instagram),
        }
    }
}

impl Clone for DBResource {
    fn clone(&self) -> (r: Self)
        ensures
            r@ == self@,
    {
        DBResource {
            id: self.id,
            img_ids: clone_id_vec(&self.img_ids),
            name: self.name.clone(),
            description: self.description.clone(),
            missions: clone_string_vec(&self.missions),
            phone: clone_opt_string(&self.phone),
            email: clone_opt_string(&self.email),
            website_url: clone_opt_string(&self.website_url),
            address_id: self.address_id,
            twitter: clone_opt_string(&self.twitter),
            facebook: clone_opt_string(&self.facebook),
            youtube: clone_opt_string(&self.youtube),
            linkedin: clone_opt_string(&self.linkedin),
            threads: clone_opt_string(&self.threads),
            instagram: clone_opt_string(&self.instagram),
        }
    }
}

/// Creation parameters for a support resource; embeds image payloads and an
/// optional address payload that the insert path deduplicates.
#[derive(Debug, PartialEq, Eq)]
pub struct DBResourceParams {
    pub name: String,
    pub img_params: Vec<DBImageParams>,
    pub description: String,
    pub missions: Vec<String>,
    pub phone: Option<String>,
    pub email: Option<String>,
    pub website_url: Option<String>,
    pub address: Option<DBAddressParams>,
    pub twitter: Option<String>,
    pub facebook: Option<String>,
    pub youtube: Option<String>,
    pub linkedin: Option<String>,
    pub threads: Option<String>,
    pub instagram: Option<String>,
}

/// The view of support resource creation parameters.
#[verifier::ext_equal]
pub struct ResourceParamsView {
    pub name: Seq<char>,
    pub img_params: Seq<ImageParamsView>,
    pub description: Seq<char>,
    pub missions: Seq<Seq<char>>,
    pub phone: Option<Seq<char>>,
    pub email: Option<Seq<char>>,
    pub website_url: Option<Seq<char>>,
    pub address: Option<AddressParamsView>,
    pub twitter: Option<Seq<char>>,
    pub facebook: Option<Seq<char>>,
    pub youtube: Option<Seq<char>>,
    pub linkedin: Option<Seq<char>>,
    pub threads: Option<Seq<char>>,
    pub instagram: Option<Seq<char>>,
}

impl View for DBResourceParams {
    type V = ResourceParamsView;

    open spec fn view(&self) -> ResourceParamsView {
        ResourceParamsView {
            name: self.name@,
            img_params: self.img_params@.map_values(|p: DBImageParams| p@),
            description: self.description@,
            missions: str_seq_view(self.missions@),
            phone: opt_str_view(self.phone),
            email: opt_str_view(self.email),
            website_url: opt_str_view(self.website_url),
            address: match self.address {
                Some(a) => Some(a@),
                None => None,
            },
            twitter: opt_str_view(self.twitter),
            facebook: opt_str_view(self.facebook),
            youtube: opt_str_view(self.youtube),
            linkedin: opt_str_view(self.linkedin),
            threads: opt_str_view(self.threads),
            instagram: opt_str_view(self.instagram),
        }
    }
}

} // verus!
